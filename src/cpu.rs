use vstd::prelude::*;

use crate::memory::{read_spec, Memory, KBDR};
use crate::opcodes;

verus! {

broadcast use vstd::array::group_array_axioms;

/// Where execution starts: the conventional load address.
pub const START_PC: u16 = 0x3000;

/// Condition-code bit of the processor status register: negative.
pub const CC_N: u16 = 4;

/// Zero.
pub const CC_Z: u16 = 2;

/// Positive.
pub const CC_P: u16 = 1;

/// Two to the power `n`.
pub open spec fn pow2(n: nat) -> nat
    decreases n,
{
    if n == 0 {
        1
    } else {
        2 * pow2((n - 1) as nat)
    }
}

/// `x + y` modulo 2^16.
pub open spec fn add16(x: u16, y: u16) -> u16 {
    ((x + y) % 0x10000) as u16
}

/// A `w`-bit field widened to 16 bits in two's complement.
pub open spec fn sext_spec(v: u16, w: nat) -> u16 {
    if v >= pow2((w - 1) as nat) {
        (v + 0x10000 - pow2(w)) as u16
    } else {
        v
    }
}

/// The signed value of a 16-bit word.
pub open spec fn signed16(x: u16) -> int {
    if x >= 0x8000 {
        x - 0x10000
    } else {
        x as int
    }
}

/// The signed value of a `w`-bit field.
pub open spec fn field_signed(v: u16, w: nat) -> int {
    if v >= pow2((w - 1) as nat) {
        v - pow2(w)
    } else {
        v as int
    }
}

/// The condition-code bit that a result sets.
pub open spec fn cc_of(v: u16) -> u16 {
    if v == 0 {
        CC_Z
    } else if v >= 0x8000 {
        CC_N
    } else {
        CC_P
    }
}

/// The whole architectural state of the machine.
pub struct Machine {
    pub regs: Seq<u16>,
    pub pc: u16,
    pub psr: u16,
    pub halted: bool,
    pub mem: Seq<u16>,
    pub key: Option<u16>,
}

/// What a step asks of its surroundings.
pub enum Event {
    Continue,
    Output(Seq<u8>),
    Halt,
    UnknownOpcode(u16),
    Unsupported,
    NeedInput,
}

/// The outcome of executing one instruction.
#[derive(Debug)]
pub enum Step {
    /// Nothing to report.
    Continue,
    /// These bytes are to be printed, in order.
    Output(Vec<u8>),
    /// The HALT trap ran: the machine is halted.
    Halt,
    /// The opcode (bits 15-12) has no instruction: the machine is halted.
    UnknownOpcode(u16),
    /// RTI, which needs a supervisor mode that is not modelled: the run must abort.
    Unsupported,
    /// The instruction reads the keyboard data register and no key is pending:
    /// nothing changed; press a key and step again.
    NeedInput,
}

impl View for Step {
    type V = Event;

    open spec fn view(&self) -> Event {
        match self {
            Step::Continue => Event::Continue,
            Step::Output(v) => Event::Output(v@),
            Step::Halt => Event::Halt,
            Step::UnknownOpcode(op) => Event::UnknownOpcode(*op),
            Step::Unsupported => Event::Unsupported,
            Step::NeedInput => Event::NeedInput,
        }
    }
}

impl Step {
    /// Whether nothing is to be reported.
    pub fn is_continue(&self) -> (r: bool)
        ensures
            r == (self@ is Continue),
    {
        match self {
            Step::Continue => true,
            _ => false,
        }
    }
}

/// What reading address `a` yields in state `m`.
pub open spec fn rd(m: Machine, a: u16) -> Option<u16> {
    read_spec(m.mem, m.key, a)
}

/// Drops the pending key if the instruction read the data register.
pub open spec fn finish(m: Machine, used: bool) -> Machine {
    Machine { key: if used { None } else { m.key }, ..m }
}

/// Writes `v` to register `reg` and sets the condition codes from it.
pub open spec fn with_result(m: Machine, reg: u16, v: u16) -> Machine {
    Machine { regs: m.regs.update(reg as int, v), psr: (m.psr & 0xFFF8) | cc_of(v), ..m }
}

/// The bytes PUTS prints from address `a` on, and whether it read the data register;
/// `None` when it needs a key that is not there.
pub open spec fn puts_spec(mem: Seq<u16>, key: Option<u16>, a: int) -> Option<(Seq<u8>, bool)>
    decreases 0x10000 - a,
{
    if a < 0 || a >= 0x10000 {
        Some((Seq::empty(), false))
    } else {
        match read_spec(mem, key, a as u16) {
            None => None,
            Some(w) => if w == 0 {
                Some((Seq::empty(), a == KBDR))
            } else {
                match puts_spec(mem, key, a + 1) {
                    None => None,
                    Some((s, u)) => Some((seq![#[verifier::truncate] (w as u8)] + s, u || a == KBDR)),
                }
            },
        }
    }
}

/// A trap with vector `v`, where `m.pc` already points past the TRAP instruction.
pub open spec fn trap_spec(m: Machine, v: u16, used: bool) -> (Machine, Event) {
    let m1 = Machine { regs: m.regs.update(7, m.pc), ..m };
    if v == 0x20 {
        (finish(Machine { regs: m1.regs.update(0, 0x41), ..m1 }, used), Event::Continue)
    } else if v == 0x21 {
        (finish(m1, used), Event::Output(seq![#[verifier::truncate] (m.regs[0] as u8)]))
    } else if v == 0x22 {
        match puts_spec(m.mem, m.key, m.regs[0] as int) {
            None => (m, Event::NeedInput),
            Some((s, u)) => (finish(m1, used || u), Event::Output(s)),
        }
    } else if v == 0x25 {
        (finish(Machine { halted: true, ..m1 }, used), Event::Halt)
    } else {
        (finish(m1, used), Event::Continue)
    }
}

/// Executes `instr`, where `m.pc` already points past it; `used` tells whether
/// fetching it read the data register.
pub open spec fn execute(m: Machine, instr: u16, used: bool) -> (Machine, Event) {
    let op = instr >> 12;
    let a = (instr >> 9) & 7;
    let b = (instr >> 6) & 7;
    let off9 = sext_spec(instr & 0x1FF, 9);
    let off6 = sext_spec(instr & 0x3F, 6);
    if op == opcodes::ADD || op == opcodes::AND {
        let c = if (instr >> 5) & 1 == 0 {
            m.regs[(instr & 7) as int]
        } else {
            sext_spec(instr & 0x1F, 5)
        };
        let v = if op == opcodes::ADD {
            add16(m.regs[b as int], c)
        } else {
            m.regs[b as int] & c
        };
        (finish(with_result(m, a, v), used), Event::Continue)
    } else if op == opcodes::BR {
        let pc = if (m.psr & 7) & a != 0 {
            add16(m.pc, off9)
        } else {
            m.pc
        };
        (finish(Machine { pc, ..m }, used), Event::Continue)
    } else if op == opcodes::JMP {
        (finish(Machine { pc: m.regs[b as int], ..m }, used), Event::Continue)
    } else if op == opcodes::JSR {
        let regs = m.regs.update(7, m.pc);
        let pc = if (instr >> 11) & 1 == 1 {
            add16(m.pc, sext_spec(instr & 0x7FF, 11))
        } else {
            regs[b as int]
        };
        (finish(Machine { regs, pc, ..m }, used), Event::Continue)
    } else if op == opcodes::LD || op == opcodes::LDR {
        let e = if op == opcodes::LD {
            add16(m.pc, off9)
        } else {
            add16(m.regs[b as int], off6)
        };
        match rd(m, e) {
            None => (m, Event::NeedInput),
            Some(v) => (finish(with_result(m, a, v), used || e == KBDR), Event::Continue),
        }
    } else if op == opcodes::LDI {
        let e = add16(m.pc, off9);
        match rd(m, e) {
            None => (m, Event::NeedInput),
            Some(p) => match rd(m, p) {
                None => (m, Event::NeedInput),
                Some(v) => (
                    finish(with_result(m, a, v), used || e == KBDR || p == KBDR),
                    Event::Continue,
                ),
            },
        }
    } else if op == opcodes::LEA {
        (finish(with_result(m, a, add16(m.pc, off9)), used), Event::Continue)
    } else if op == opcodes::NOT {
        (finish(with_result(m, a, !m.regs[b as int]), used), Event::Continue)
    } else if op == opcodes::RTI {
        (m, Event::Unsupported)
    } else if op == opcodes::ST || op == opcodes::STR {
        let e = if op == opcodes::ST {
            add16(m.pc, off9)
        } else {
            add16(m.regs[b as int], off6)
        };
        (finish(Machine { mem: m.mem.update(e as int, m.regs[a as int]), ..m }, used), Event::Continue)
    } else if op == opcodes::STI {
        let e = add16(m.pc, off9);
        match rd(m, e) {
            None => (m, Event::NeedInput),
            Some(p) => (
                finish(Machine { mem: m.mem.update(p as int, m.regs[a as int]), ..m }, used || e == KBDR),
                Event::Continue,
            ),
        }
    } else if op == opcodes::TRAP {
        trap_spec(m, instr & 0xFF, used)
    } else {
        (finish(Machine { halted: true, ..m }, used), Event::UnknownOpcode(op))
    }
}

/// One fetch-decode-execute step. When the step needs a key that is not there, or
/// meets RTI, the machine is left as it was.
pub open spec fn next(m: Machine) -> (Machine, Event) {
    match rd(m, m.pc) {
        None => (m, Event::NeedInput),
        Some(instr) => {
            let r = execute(Machine { pc: add16(m.pc, 1), ..m }, instr, m.pc == KBDR);
            if r.1 is NeedInput || r.1 is Unsupported {
                (m, r.1)
            } else {
                r
            }
        },
    }
}

/// Up to `fuel` steps from `m`, stopping at the first event that is not `Continue`
/// or once the machine is halted.
pub open spec fn run_spec(m: Machine, fuel: nat) -> (Machine, Event)
    decreases fuel,
{
    if m.halted || fuel == 0 {
        (m, Event::Continue)
    } else {
        let r = next(m);
        if r.1 is Continue {
            run_spec(r.0, (fuel - 1) as nat)
        } else {
            r
        }
    }
}

/// The execution engine: eight registers, program counter, status register, memory.
pub struct Cpu {
    pub registers: [u16; 8],
    pc: u16,
    psr: u16,
    pub memory: Memory,
    halted: bool,
}

impl View for Cpu {
    type V = Machine;

    closed spec fn view(&self) -> Machine {
        Machine {
            regs: self.registers@,
            pc: self.pc,
            psr: self.psr,
            halted: self.halted,
            mem: self.memory.words(),
            key: self.memory.key(),
        }
    }
}

proof fn lemma_pow2_bound(n: nat)
    requires
        n <= 16,
    ensures
        1 <= pow2(n) <= 0x10000,
    decreases 16 - n,
{
    reveal_with_fuel(pow2, 17);
    if n < 16 {
        lemma_pow2_bound(n + 1);
    }
}

proof fn lemma_fields(instr: u16)
    ensures
        instr & 0x1F < pow2(5),
        instr & 0x3F < pow2(6),
        instr & 0x1FF < pow2(9),
        instr & 0x7FF < pow2(11),
        instr & 7 < 8,
        (instr >> 9) & 7 < 8,
        (instr >> 6) & 7 < 8,
{
    reveal_with_fuel(pow2, 12);
    assert(instr & 0x1F < 32) by (bit_vector);
    assert(instr & 0x3F < 64) by (bit_vector);
    assert(instr & 0x1FF < 512) by (bit_vector);
    assert(instr & 0x7FF < 2048) by (bit_vector);
    assert(instr & 7 < 8) by (bit_vector);
    assert((instr >> 9) & 7 < 8) by (bit_vector);
    assert((instr >> 6) & 7 < 8) by (bit_vector);
}

/// Sign-extends the `width`-bit field `val` to 16 bits.
pub fn sext(val: u16, width: u8) -> (r: u16)
    requires
        1 <= width <= 16,
        val < pow2(width as nat),
    ensures
        r == sext_spec(val, width as nat),
{
    let mut p: u32 = 1;
    let mut i: u8 = 0;
    while i < width
        invariant
            i <= width <= 16,
            p == pow2(i as nat),
        decreases width - i,
    {
        proof {
            lemma_pow2_bound(i as nat);
        }
        p = p * 2;
        i += 1;
    }
    proof {
        lemma_pow2_bound(width as nat);
    }
    if val as u32 >= p / 2 {
        ((val as u32 + 0x10000 - p) % 0x10000) as u16
    } else {
        val
    }
}

/// Adds two words modulo 2^16.
fn add16_exec(x: u16, y: u16) -> (r: u16)
    ensures
        r == add16(x, y),
{
    ((x as u32 + y as u32) % 0x10000) as u16
}

impl Cpu {
    /// A machine over `memory`, all registers zero, PC at the load address, running.
    pub fn new(memory: Memory) -> (r: Cpu)
        ensures
            r@ == (Machine {
                regs: seq![0u16, 0, 0, 0, 0, 0, 0, 0],
                pc: START_PC,
                psr: 0,
                halted: false,
                mem: memory.words(),
                key: memory.key(),
            }),
    {
        let r = Cpu { registers: [0, 0, 0, 0, 0, 0, 0, 0], pc: START_PC, psr: 0, memory, halted: false };
        proof {
            assert(r.registers@ =~= seq![0u16, 0, 0, 0, 0, 0, 0, 0]);
        }
        r
    }

    /// The program counter.
    pub fn pc(&self) -> (r: u16)
        ensures
            r == self@.pc,
    {
        self.pc
    }

    /// The processor status register; its low three bits are N, Z, P.
    pub fn psr(&self) -> (r: u16)
        ensures
            r == self@.psr,
    {
        self.psr
    }

    /// Whether the machine has halted.
    pub fn is_halted(&self) -> (r: bool)
        ensures
            r == self@.halted,
    {
        self.halted
    }

    /// Eight registers and 65536 words of memory, in every state.
    pub proof fn lemma_view(&self)
        ensures
            self@.regs.len() == 8,
            self@.mem.len() == 0x10000,
    {
        self.memory.lemma_size();
    }

    /// Writes `value` to register `reg` and sets exactly one condition code from it.
    pub fn setcc(&mut self, reg: u16, value: u16)
        requires
            reg < 8,
        ensures
            final(self)@ == with_result(old(self)@, reg, value),
    {
        let f: u16 = if value == 0 {
            CC_Z
        } else if value >= 0x8000 {
            CC_N
        } else {
            CC_P
        };
        self.psr = (self.psr & 0xFFF8) | f;
        self.registers[reg as usize] = value;
    }

    fn finish(&mut self, used: bool)
        ensures
            final(self)@ == finish(old(self)@, used),
            final(self).registers == old(self).registers,
    {
        if used {
            self.memory.consume_key();
        }
    }

    /// Runs trap `vector` with the program counter to be `pc`; leaves the machine
    /// as it was when it needs a key that is not there.
    fn trap_with(&mut self, vector: u16, pc: u16, used: bool) -> (r: Step)
        ensures
            r@ == trap_spec(Machine { pc, ..old(self)@ }, vector, used).1,
            r@ is NeedInput ==> final(self)@ == old(self)@,
            !(r@ is NeedInput) ==> final(self)@ == trap_spec(Machine { pc, ..old(self)@ }, vector, used).0,
    {
        let ghost m = Machine { pc, ..self@ };
        if vector == 0x20 {
            self.pc = pc;
            self.registers[7] = pc;
            self.registers[0] = 0x41;
            self.finish(used);
            Step::Continue
        } else if vector == 0x21 {
            let c = #[verifier::truncate] (self.registers[0] as u8);
            self.pc = pc;
            self.registers[7] = pc;
            self.finish(used);
            let mut out: Vec<u8> = Vec::new();
            out.push(c);
            proof {
                assert(out@ =~= seq![#[verifier::truncate] (m.regs[0] as u8)]);
            }
            Step::Output(out)
        } else if vector == 0x22 {
            let ghost mem = m.mem;
            let ghost key = m.key;
            let start: u16 = self.registers[0];
            let mut out: Vec<u8> = Vec::new();
            let mut u: bool = false;
            let mut addr: u32 = start as u32;
            proof {
                assert(out@ + Seq::<u8>::empty() =~= out@);
            }
            loop
                invariant
                    start <= addr <= 0x10000,
                    vector == 0x22,
                    start == m.regs[0],
                    mem == m.mem,
                    key == m.key,
                    m == (Machine { pc, ..old(self)@ }),
                    self@ == old(self)@,
                    mem == self.memory.words(),
                    key == self.memory.key(),
                    match puts_spec(mem, key, addr as int) {
                        None => puts_spec(mem, key, start as int) is None,
                        Some(t) => puts_spec(mem, key, start as int) == Some((out@ + t.0, u || t.1)),
                    },
                ensures
                    self@ == old(self)@,
                    mem == self.memory.words(),
                    key == self.memory.key(),
                    puts_spec(mem, key, start as int) == Some((out@, u)),
                decreases 0x10000 - addr,
            {
                if addr >= 0x10000 {
                    proof {
                        assert(out@ + Seq::<u8>::empty() =~= out@);
                    }
                    break;
                }
                match self.memory.read(addr as u16) {
                    None => {
                        proof {
                            assert(puts_spec(mem, key, addr as int) is None);
                            assert(puts_spec(mem, key, start as int) is None);
                        }
                        return Step::NeedInput;
                    },
                    Some(w) => {
                        if w == 0 {
                            proof {
                                assert(puts_spec(mem, key, addr as int) == Some((Seq::<u8>::empty(), addr == KBDR)));
                            }
                            if addr == KBDR as u32 {
                                u = true;
                            }
                            proof {
                                assert(out@ + Seq::<u8>::empty() =~= out@);
                            }
                            break;
                        }
                        let ghost before = out@;
                        out.push(#[verifier::truncate] (w as u8));
                        if addr == KBDR as u32 {
                            u = true;
                        }
                        proof {
                            match puts_spec(mem, key, addr + 1) {
                                None => {},
                                Some(t) => {
                                    assert(before + (seq![#[verifier::truncate] (w as u8)] + t.0) =~= out@ + t.0);
                                },
                            }
                        }
                        addr += 1;
                    },
                }
            }
            self.pc = pc;
            self.registers[7] = pc;
            self.finish(used || u);
            Step::Output(out)
        } else if vector == 0x25 {
            self.pc = pc;
            self.registers[7] = pc;
            self.halted = true;
            self.finish(used);
            Step::Halt
        } else {
            self.pc = pc;
            self.registers[7] = pc;
            self.finish(used);
            Step::Continue
        }
    }

    /// Runs the trap routine with vector `vector`: character input (a fixed
    /// placeholder), character output, string output, or halt; others do nothing.
    pub fn trap(&mut self, vector: u16) -> (r: Step)
        ensures
            (final(self)@, r@) == trap_spec(old(self)@, vector, false),
    {
        let pc = self.pc;
        let r = self.trap_with(vector, pc, false);
        proof {
            assert(Machine { pc, ..old(self)@ } == old(self)@);
        }
        r
    }

    /// Fetches, decodes and executes one instruction.
    #[verifier::rlimit(40)]
    pub fn step(&mut self) -> (r: Step)
        ensures
            (final(self)@, r@) == next(old(self)@),
    {
        let instr = match self.memory.read(self.pc) {
            None => {
                return Step::NeedInput;
            },
            Some(w) => w,
        };
        let used: bool = self.pc == KBDR;
        let pc = add16_exec(self.pc, 1);
        let op = instr >> 12;
        let a = (instr >> 9) & 7;
        let b = (instr >> 6) & 7;
        proof {
            lemma_fields(instr);
        }
        if op == opcodes::ADD || op == opcodes::AND {
            let c = if (instr >> 5) & 1 == 0 {
                self.registers[(instr & 7) as usize]
            } else {
                sext(instr & 0x1F, 5)
            };
            let v = if op == opcodes::ADD {
                add16_exec(self.registers[b as usize], c)
            } else {
                self.registers[b as usize] & c
            };
            self.pc = pc;
            self.setcc(a, v);
            self.finish(used);
            Step::Continue
        } else if op == opcodes::BR {
            if (self.psr & 7) & a != 0 {
                self.pc = add16_exec(pc, sext(instr & 0x1FF, 9));
            } else {
                self.pc = pc;
            }
            self.finish(used);
            Step::Continue
        } else if op == opcodes::JMP {
            self.pc = self.registers[b as usize];
            self.finish(used);
            Step::Continue
        } else if op == opcodes::JSR {
            self.registers[7] = pc;
            if (instr >> 11) & 1 == 1 {
                self.pc = add16_exec(pc, sext(instr & 0x7FF, 11));
            } else {
                self.pc = self.registers[b as usize];
            }
            self.finish(used);
            Step::Continue
        } else if op == opcodes::LD || op == opcodes::LDR {
            let e = if op == opcodes::LD {
                add16_exec(pc, sext(instr & 0x1FF, 9))
            } else {
                add16_exec(self.registers[b as usize], sext(instr & 0x3F, 6))
            };
            match self.memory.read(e) {
                None => Step::NeedInput,
                Some(v) => {
                    self.pc = pc;
                    self.setcc(a, v);
                    self.finish(used || e == KBDR);
                    Step::Continue
                },
            }
        } else if op == opcodes::LDI {
            let e = add16_exec(pc, sext(instr & 0x1FF, 9));
            match self.memory.read(e) {
                None => Step::NeedInput,
                Some(p) => match self.memory.read(p) {
                    None => Step::NeedInput,
                    Some(v) => {
                        self.pc = pc;
                        self.setcc(a, v);
                        self.finish(used || e == KBDR || p == KBDR);
                        Step::Continue
                    },
                },
            }
        } else if op == opcodes::LEA {
            let v = add16_exec(pc, sext(instr & 0x1FF, 9));
            self.pc = pc;
            self.setcc(a, v);
            self.finish(used);
            Step::Continue
        } else if op == opcodes::NOT {
            let v = !self.registers[b as usize];
            self.pc = pc;
            self.setcc(a, v);
            self.finish(used);
            Step::Continue
        } else if op == opcodes::RTI {
            Step::Unsupported
        } else if op == opcodes::ST || op == opcodes::STR {
            let e = if op == opcodes::ST {
                add16_exec(pc, sext(instr & 0x1FF, 9))
            } else {
                add16_exec(self.registers[b as usize], sext(instr & 0x3F, 6))
            };
            let v = self.registers[a as usize];
            self.memory.write(e, v);
            self.pc = pc;
            self.finish(used);
            Step::Continue
        } else if op == opcodes::STI {
            let e = add16_exec(pc, sext(instr & 0x1FF, 9));
            match self.memory.read(e) {
                None => Step::NeedInput,
                Some(p) => {
                    let v = self.registers[a as usize];
                    self.memory.write(p, v);
                    self.pc = pc;
                    self.finish(used || e == KBDR);
                    Step::Continue
                },
            }
        } else if op == opcodes::TRAP {
            self.trap_with(instr & 0xFF, pc, used)
        } else {
            self.pc = pc;
            self.halted = true;
            self.finish(used);
            Step::UnknownOpcode(op)
        }
    }

    /// Steps until the machine halts, a step reports something other than
    /// `Continue`, or `max_steps` steps have run.
    pub fn run(&mut self, max_steps: u64) -> (r: Step)
        ensures
            (final(self)@, r@) == run_spec(old(self)@, max_steps as nat),
    {
        let mut n: u64 = max_steps;
        while n > 0 && !self.halted
            invariant
                run_spec(self@, n as nat) == run_spec(old(self)@, max_steps as nat),
            decreases n,
        {
            let r = self.step();
            if !r.is_continue() {
                return r;
            }
            n = n - 1;
        }
        Step::Continue
    }
}

/// Sign extension keeps the signed value: a `w`-bit field read as a signed number equals
/// its 16-bit extension read as a signed word.
pub proof fn lemma_sext_keeps_value(v: u16, w: nat)
    requires
        1 <= w <= 16,
        v < pow2(w),
    ensures
        signed16(sext_spec(v, w)) == field_signed(v, w),
{
    lemma_pow2_bound(w);
    lemma_pow2_bound((w - 1) as nat);
    assert(pow2(w) == 2 * pow2((w - 1) as nat));
}

/// After a result is written, exactly one of the N, Z, P bits is set: Z exactly when the
/// value is zero, N exactly when its bit 15 is one. The register holds the value.
pub proof fn lemma_setcc_one_flag(m: Machine, reg: u16, v: u16)
    requires
        reg < m.regs.len(),
    ensures
        ({
            let f = with_result(m, reg, v).psr & 7;
            &&& f == CC_N || f == CC_Z || f == CC_P
            &&& (f == CC_Z) <==> v == 0
            &&& (f == CC_N) <==> (v >> 15) & 1 == 1
        }),
        with_result(m, reg, v).regs[reg as int] == v,
{
    let p = m.psr;
    assert((p & 0xFFF8 | 2u16) & 7 == 2) by (bit_vector);
    assert((p & 0xFFF8 | 4u16) & 7 == 4) by (bit_vector);
    assert((p & 0xFFF8 | 1u16) & 7 == 1) by (bit_vector);
    assert((v >> 15) & 1 == 1 <==> v >= 0x8000) by (bit_vector);
}

/// LDI reads through a pointer: when the cell at its effective address `e` holds `p`
/// and the cell at `p` holds `x`, the destination register receives `x`.
pub proof fn lemma_ldi_indirect(m: Machine, instr: u16, p: u16, x: u16)
    requires
        m.regs.len() == 8,
        m.mem.len() == 0x10000,
        rd(m, m.pc) == Some(instr),
        instr >> 12 == opcodes::LDI,
        m.mem[add16(add16(m.pc, 1), sext_spec(instr & 0x1FF, 9)) as int] == p,
        m.mem[p as int] == x,
        add16(add16(m.pc, 1), sext_spec(instr & 0x1FF, 9)) != crate::memory::KBSR,
        add16(add16(m.pc, 1), sext_spec(instr & 0x1FF, 9)) != KBDR,
        p != crate::memory::KBSR,
        p != KBDR,
    ensures
        next(m).1 is Continue,
        next(m).0.regs[((instr >> 9) & 7) as int] == x,
        next(m).0.pc == add16(m.pc, 1),
{
    lemma_fields(instr);
}

/// A branch moves the program counter by its signed offset exactly when the condition
/// codes share a bit with its condition field (bits 11-9); otherwise execution falls through.
pub proof fn lemma_branch(m: Machine, instr: u16)
    requires
        rd(m, m.pc) == Some(instr),
        instr >> 12 == opcodes::BR,
    ensures
        next(m).1 is Continue,
        next(m).0.pc == if (m.psr & 7) & ((instr >> 9) & 7) != 0 {
            add16(add16(m.pc, 1), sext_spec(instr & 0x1FF, 9))
        } else {
            add16(m.pc, 1)
        },
        next(m).0.regs == m.regs,
        next(m).0.mem == m.mem,
{
}

} // verus!
