use lc3::cpu::{sext, Cpu, Step};
use lc3::memory::Memory;

fn machine(program: &[u16]) -> Cpu {
    let mut memory = Memory::new();
    memory.load(0x3000, program.to_vec());
    Cpu::new(memory)
}

fn cc(cpu: &Cpu) -> u16 {
    cpu.psr() & 7
}

#[test]
fn sext_widens_negative_fields() {
    assert_eq!(sext(0x1F, 5), 0xFFFF);
    assert_eq!(sext(0x10, 5), 0xFFF0);
    assert_eq!(sext(0x100, 9), 0xFF00);
    assert_eq!(sext(0x3F, 6), 0xFFFF);
    assert_eq!(sext(1, 1), 0xFFFF);
    assert_eq!(sext(0x8000, 16), 0x8000);
}

#[test]
fn sext_keeps_positive_fields() {
    assert_eq!(sext(0x0F, 5), 0x000F);
    assert_eq!(sext(0xFF, 9), 0x00FF);
    assert_eq!(sext(0, 1), 0);
    assert_eq!(sext(0x7FFF, 16), 0x7FFF);
}

#[test]
fn sext_signed_value_matches_field() {
    for w in 1u8..=16 {
        let size: i32 = 1 << w;
        for v in [0i32, 1, size / 2 - 1, size / 2, size - 1] {
            if v < 0 || v >= size {
                continue;
            }
            let field_value = if v >= size / 2 { v - size } else { v };
            assert_eq!(sext(v as u16, w) as i16 as i32, field_value);
        }
    }
}

#[test]
fn new_cpu_starts_at_load_address() {
    let cpu = Cpu::new(Memory::new());
    assert_eq!(cpu.pc(), 0x3000);
    assert_eq!(cpu.psr(), 0);
    assert!(!cpu.is_halted());
    assert_eq!(cpu.registers, [0; 8]);
}

#[test]
fn setcc_sets_exactly_one_flag() {
    let mut cpu = Cpu::new(Memory::new());
    cpu.setcc(3, 0);
    assert_eq!(cc(&cpu), 2);
    assert_eq!(cpu.registers[3], 0);
    cpu.setcc(3, 0x8001);
    assert_eq!(cc(&cpu), 4);
    assert_eq!(cpu.registers[3], 0x8001);
    cpu.setcc(4, 0x7FFF);
    assert_eq!(cc(&cpu), 1);
    assert_eq!(cpu.registers[4], 0x7FFF);
}

#[test]
fn add_immediate_wraps() {
    // ADD R0, R1, #1
    let mut cpu = machine(&[0x1061]);
    cpu.registers[1] = 0xFFFF;
    assert!(matches!(cpu.step(), Step::Continue));
    assert_eq!(cpu.registers[0], 0);
    assert_eq!(cc(&cpu), 2);
    assert_eq!(cpu.pc(), 0x3001);
}

#[test]
fn add_register_and_negative_immediate() {
    // ADD R2, R0, R1 ; ADD R3, R2, #-2
    let mut cpu = machine(&[0x1401, 0x16BE]);
    cpu.registers[0] = 5;
    cpu.registers[1] = 7;
    cpu.step();
    assert_eq!(cpu.registers[2], 12);
    assert_eq!(cc(&cpu), 1);
    cpu.step();
    assert_eq!(cpu.registers[3], 10);
}

#[test]
fn and_and_not() {
    // AND R0, R1, R2 ; NOT R3, R0 ; AND R4, R1, #0
    let mut cpu = machine(&[0x5042, 0x963F, 0x5860]);
    cpu.registers[1] = 0x0FF0;
    cpu.registers[2] = 0x00FF;
    cpu.step();
    assert_eq!(cpu.registers[0], 0x00F0);
    cpu.step();
    assert_eq!(cpu.registers[3], 0xFF0F);
    assert_eq!(cc(&cpu), 4);
    cpu.step();
    assert_eq!(cpu.registers[4], 0);
    assert_eq!(cc(&cpu), 2);
}

#[test]
fn branch_taken_when_zero_set() {
    // AND R0, R0, #0 ; BRz #2
    let mut cpu = machine(&[0x5020, 0x0402]);
    cpu.step();
    assert_eq!(cc(&cpu), 2);
    cpu.step();
    assert_eq!(cpu.pc(), 0x3004);
}

#[test]
fn branch_not_taken_when_zero_clear() {
    // ADD R0, R0, #1 ; BRz #2
    let mut cpu = machine(&[0x1021, 0x0402]);
    cpu.step();
    assert_eq!(cc(&cpu), 1);
    cpu.step();
    assert_eq!(cpu.pc(), 0x3002);
}

#[test]
fn branch_backwards() {
    // AND R0, R0, #0 ; BRnzp #-2
    let mut cpu = machine(&[0x5020, 0x0FFE]);
    cpu.step();
    cpu.step();
    assert_eq!(cpu.pc(), 0x3000);
}

#[test]
fn jmp_and_jsr() {
    // JSR #2 ; (skipped) ; (skipped) ; JMP R7
    let mut cpu = machine(&[0x4802, 0, 0, 0xC1C0]);
    cpu.step();
    assert_eq!(cpu.registers[7], 0x3001);
    assert_eq!(cpu.pc(), 0x3003);
    cpu.step();
    assert_eq!(cpu.pc(), 0x3001);
}

#[test]
fn jsrr_jumps_to_register() {
    // JSRR R2
    let mut cpu = machine(&[0x4080]);
    cpu.registers[2] = 0x4000;
    cpu.step();
    assert_eq!(cpu.registers[7], 0x3001);
    assert_eq!(cpu.pc(), 0x4000);
}

#[test]
fn ld_lea_ldr() {
    // LD R0, #2 ; LEA R1, #1 ; LDR R2, R1, #1 ; data 0x1234 ; data 0x8765
    let mut cpu = machine(&[0x2002, 0xE201, 0x6441, 0x1234, 0x8765]);
    cpu.step();
    assert_eq!(cpu.registers[0], 0x1234);
    cpu.step();
    assert_eq!(cpu.registers[1], 0x3003);
    cpu.step();
    assert_eq!(cpu.registers[2], 0x8765);
    assert_eq!(cc(&cpu), 4);
}

#[test]
fn ldi_reads_through_pointer() {
    // LDI R2, #3
    let mut cpu = machine(&[0xA403]);
    cpu.memory.write(0x3004, 0x4000);
    cpu.memory.write(0x4000, 0x1234);
    assert!(matches!(cpu.step(), Step::Continue));
    assert_eq!(cpu.registers[2], 0x1234);
    assert_eq!(cc(&cpu), 1);
}

#[test]
fn stores() {
    // ST R0, #3 ; STR R0, R1, #-1 ; STI R0, #2 ; pointer at 0x3005
    let mut cpu = machine(&[0x3003, 0x707F, 0xB002]);
    cpu.registers[0] = 0xBEEF;
    cpu.registers[1] = 0x5001;
    cpu.memory.write(0x3005, 0x6000);
    cpu.step();
    assert_eq!(cpu.memory.word(0x3004), 0xBEEF);
    cpu.step();
    assert_eq!(cpu.memory.word(0x5000), 0xBEEF);
    cpu.step();
    assert_eq!(cpu.memory.word(0x6000), 0xBEEF);
}

#[test]
fn rti_is_unsupported() {
    let mut cpu = machine(&[0x8000]);
    assert!(matches!(cpu.step(), Step::Unsupported));
    assert_eq!(cpu.pc(), 0x3000);
}

#[test]
fn reserved_opcode_halts() {
    let mut cpu = machine(&[0xD000]);
    assert!(matches!(cpu.step(), Step::UnknownOpcode(13)));
    assert!(cpu.is_halted());
}

#[test]
fn trap_getc_and_out() {
    // TRAP x20 ; TRAP x21
    let mut cpu = machine(&[0xF020, 0xF021]);
    cpu.step();
    assert_eq!(cpu.registers[0], 0x41);
    assert_eq!(cpu.registers[7], 0x3001);
    match cpu.step() {
        Step::Output(bytes) => assert_eq!(bytes, vec![0x41]),
        _ => panic!("expected output"),
    }
}

#[test]
fn trap_unknown_vector_does_nothing_else() {
    let mut cpu = machine(&[0xF030]);
    assert!(matches!(cpu.step(), Step::Continue));
    assert_eq!(cpu.registers[7], 0x3001);
    assert!(!cpu.is_halted());
}

#[test]
fn trap_called_directly() {
    let mut cpu = Cpu::new(Memory::new());
    assert!(matches!(cpu.trap(0x25), Step::Halt));
    assert!(cpu.is_halted());
    assert_eq!(cpu.registers[7], 0x3000);
}

#[test]
fn prints_string_and_halts() {
    let program = [0xE002, 0xF022, 0xF025, 0x0041, 0x0042, 0x0043, 0x0044, 0x000A];
    let mut cpu = machine(&program);
    let mut printed: Vec<u8> = Vec::new();
    let mut halted = false;
    for _ in 0..10 {
        match cpu.run(1000) {
            Step::Output(bytes) => printed.extend(bytes),
            Step::Halt => {
                halted = true;
                break;
            }
            _ => panic!("unexpected outcome"),
        }
    }
    assert!(halted);
    assert!(cpu.is_halted());
    assert_eq!(printed, b"ABCD\n".to_vec());
}

#[test]
fn run_stops_after_budget() {
    // JMP R0 with R0 = 0x3000 loops forever
    let mut cpu = machine(&[0xC000]);
    cpu.registers[0] = 0x3000;
    assert!(matches!(cpu.run(50), Step::Continue));
    assert_eq!(cpu.pc(), 0x3000);
    assert!(!cpu.is_halted());
}

#[test]
fn keyboard_registers() {
    // LDR R0, R1, #0 twice
    let mut cpu = machine(&[0x6040, 0x6040]);
    cpu.registers[1] = 0xFE02;
    assert!(matches!(cpu.step(), Step::NeedInput));
    assert_eq!(cpu.pc(), 0x3000);
    cpu.memory.press(0x61);
    assert!(matches!(cpu.step(), Step::Continue));
    assert_eq!(cpu.registers[0], 0x61);
    assert_eq!(cpu.memory.read(0xFE02), None);
    cpu.registers[1] = 0xFE00;
    cpu.step();
    assert_eq!(cpu.registers[0], 0x8000);
    assert_eq!(cc(&cpu), 4);
}
