use vstd::prelude::*;

verus! {

/// The byte a terminal sends for an interrupt (Ctrl-C).
pub const INTERRUPT: u8 = 3;

/// What one raw keyboard byte means to the machine: `None` for an interrupt,
/// which cancels the run; otherwise the character, with carriage return read as newline.
pub open spec fn key_of(byte: u8) -> Option<u16> {
    if byte == INTERRUPT {
        None
    } else if byte == 13 {
        Some(10u16)
    } else {
        Some(byte as u16)
    }
}

/// Translates one raw keyboard byte into the value the input-data register yields.
pub fn translate_key(byte: u8) -> (r: Option<u16>)
    ensures
        r == key_of(byte),
{
    if byte == INTERRUPT {
        None
    } else if byte == 13 {
        Some(10)
    } else {
        Some(byte as u16)
    }
}

} // verus!
