//! The instruction set and the total decoder from 16-bit opcode words.
//!
//! Decoding is total: every 16-bit word maps to exactly one variant. Words
//! below `0x1000` other than the two literal opcodes `0x00E0` and `0x00EE`
//! decode to [`Instruction::SystemAddress`], a legacy system call that the
//! engine ignores; so does every malformed pattern in the families that
//! carry a disambiguating nibble or byte.

use vstd::prelude::*;

verus! {

/// One decoded instruction.
///
/// Variants that operate on a pair of registers carry the two 4-bit register
/// ids packed in one byte: register x in the high nibble, register y in the
/// low nibble. Variants with a single register id carry it already masked to
/// its low 4 bits, and 12-bit addresses are carried already masked to
/// `0xFFF`, so every register id in a decoded instruction is below 16 and
/// every address below `0x1000`.
#[derive(Clone, Copy, Debug, PartialEq, Eq, Structural)]
pub enum Instruction {
    /// Jump to a machine code routine at the specified 12-bit address.
    /// A legacy of the original hardware; modern interpreters ignore it,
    /// and every malformed opcode pattern also resolves to this variant.
    SystemAddress(u16),

    /// Clear the display.
    ClearScreen,

    /// Return from a subroutine: pop the program counter from the stack.
    Return,

    /// Jump to the specified 12-bit address.
    JumpAddress(u16),

    /// Call the subroutine at the specified 12-bit address: push the address
    /// of the next instruction, then jump.
    CallAddress(u16),

    /// Skip the next instruction if the register equals the byte.
    SkipEqualRegByte(u8, u8),

    /// Skip the next instruction if the register does not equal the byte.
    SkipNotEqualRegByte(u8, u8),

    /// Skip the next instruction if register x equals register y
    /// (packed ids).
    SkipEqualRegisters(u8),

    /// Load the byte into the register.
    LoadByte(u8, u8),

    /// Add the byte to the register, wrapping, without touching the flags
    /// register.
    AddByte(u8, u8),

    /// Copy register y into register x (packed ids).
    LoadRegister(u8),

    /// Bitwise or of registers x and y, stored in x (packed ids).
    Or(u8),

    /// Bitwise and of registers x and y, stored in x (packed ids).
    And(u8),

    /// Bitwise xor of registers x and y, stored in x (packed ids).
    Xor(u8),

    /// Add register y to register x, wrapping; the flags register becomes 1
    /// exactly when the unsigned sum exceeds 255 (packed ids).
    Add(u8),

    /// Subtract register y from register x, wrapping; the flags register
    /// becomes 1 exactly when no borrow occurs, that is when x >= y before
    /// the operation (packed ids).
    Sub(u8),

    /// Shift register x right by one; the flags register becomes bit 0 of x
    /// before the shift (packed ids, register y ignored).
    ShiftRight(u8),

    /// Store register y minus register x into register x, wrapping; the
    /// flags register becomes 1 exactly when y >= x before the operation
    /// (packed ids).
    SubInverted(u8),

    /// Shift register x left by one, wrapping; the flags register becomes
    /// bit 7 of x before the shift (packed ids, register y ignored).
    ShiftLeft(u8),

    /// Skip the next instruction if register x differs from register y
    /// (packed ids).
    SkipNotEqualReg(u8),

    /// Load the 12-bit address into the address register.
    LoadI(u16),

    /// Jump to the 12-bit address plus the value of register 0.
    JumpAddressOffset(u16),

    /// Store a random byte anded with the mask (second field) into the
    /// register (first field).
    RandRange(u8, u8),

    /// Draw a sprite. The first field packs the two registers that hold the
    /// origin (x in the high nibble, y in the low nibble); the low nibble of
    /// the second field is the sprite height in rows, read from memory at
    /// the address register.
    Draw(u8, u8),

    /// Skip the next instruction if the key named by the low 4 bits of the
    /// register's value is pressed.
    SkipPressed(u8),

    /// Skip the next instruction if the key named by the low 4 bits of the
    /// register's value is not pressed.
    SkipNotPressed(u8),

    /// Load the delay timer value into the register.
    LoadRegisterDelayTimer(u8),

    /// Suspend until a key is pressed, then store the key value into the
    /// register.
    LoadKeyPress(u8),

    /// Load the register's value into the delay timer.
    LoadDelayTimerRegister(u8),

    /// Load the register's value into the sound timer.
    LoadSoundTimerRegister(u8),

    /// Add the register's value to the address register, wrapping.
    AddAddresssRegister(u8),

    /// Load the address of the font glyph for the low 4 bits of the
    /// register's value into the address register.
    LoadSpriteAddress(u8),
}

/// The total decoding function: what [`decode`] returns for every word.
pub open spec fn spec_decode(value: u16) -> Instruction {
    let family = value >> 12;
    let addr = value & 0xFFF;
    let reg = ((value >> 8) & 0xF) as u8;
    let byte = (value & 0xFF) as u8;
    let pair = ((value >> 4) & 0xFF) as u8;
    let low = value & 0xF;
    if value == 0x00E0 {
        Instruction::ClearScreen
    } else if value == 0x00EE {
        Instruction::Return
    } else if family == 0x0 {
        Instruction::SystemAddress(addr)
    } else if family == 0x1 {
        Instruction::JumpAddress(addr)
    } else if family == 0x2 {
        Instruction::CallAddress(addr)
    } else if family == 0x3 {
        Instruction::SkipEqualRegByte(reg, byte)
    } else if family == 0x4 {
        Instruction::SkipNotEqualRegByte(reg, byte)
    } else if family == 0x5 && low == 0x0 {
        Instruction::SkipEqualRegisters(pair)
    } else if family == 0x6 {
        Instruction::LoadByte(reg, byte)
    } else if family == 0x7 {
        Instruction::AddByte(reg, byte)
    } else if family == 0x8 && low == 0x0 {
        Instruction::LoadRegister(pair)
    } else if family == 0x8 && low == 0x1 {
        Instruction::Or(pair)
    } else if family == 0x8 && low == 0x2 {
        Instruction::And(pair)
    } else if family == 0x8 && low == 0x3 {
        Instruction::Xor(pair)
    } else if family == 0x8 && low == 0x4 {
        Instruction::Add(pair)
    } else if family == 0x8 && low == 0x5 {
        Instruction::Sub(pair)
    } else if family == 0x8 && low == 0x6 {
        Instruction::ShiftRight(pair)
    } else if family == 0x8 && low == 0x7 {
        Instruction::SubInverted(pair)
    } else if family == 0x8 && low == 0xE {
        Instruction::ShiftLeft(pair)
    } else if family == 0x9 && low == 0x0 {
        Instruction::SkipNotEqualReg(pair)
    } else if family == 0xA {
        Instruction::LoadI(addr)
    } else if family == 0xB {
        Instruction::JumpAddressOffset(addr)
    } else if family == 0xC {
        Instruction::RandRange(reg, byte)
    } else if family == 0xD {
        Instruction::Draw(pair, byte)
    } else if family == 0xE && byte == 0x9E {
        Instruction::SkipPressed(reg)
    } else if family == 0xE && byte == 0xA1 {
        Instruction::SkipNotPressed(reg)
    } else if family == 0xF && byte == 0x07 {
        Instruction::LoadRegisterDelayTimer(reg)
    } else if family == 0xF && byte == 0x0A {
        Instruction::LoadKeyPress(reg)
    } else if family == 0xF && byte == 0x15 {
        Instruction::LoadDelayTimerRegister(reg)
    } else if family == 0xF && byte == 0x18 {
        Instruction::LoadSoundTimerRegister(reg)
    } else if family == 0xF && byte == 0x1E {
        Instruction::AddAddresssRegister(reg)
    } else if family == 0xF && byte == 0x29 {
        Instruction::LoadSpriteAddress(reg)
    } else {
        Instruction::SystemAddress(addr)
    }
}

/// Every register id carried unpacked is below 16, and every address is
/// below `0x1000`. Packed register pairs yield ids below 16 once the engine
/// splits them into nibbles, so they need no clause here.
pub open spec fn instr_wf(i: Instruction) -> bool {
    match i {
        Instruction::SystemAddress(a) => a < 0x1000,
        Instruction::ClearScreen => true,
        Instruction::Return => true,
        Instruction::JumpAddress(a) => a < 0x1000,
        Instruction::CallAddress(a) => a < 0x1000,
        Instruction::SkipEqualRegByte(r, _) => r < 16,
        Instruction::SkipNotEqualRegByte(r, _) => r < 16,
        Instruction::SkipEqualRegisters(_) => true,
        Instruction::LoadByte(r, _) => r < 16,
        Instruction::AddByte(r, _) => r < 16,
        Instruction::LoadRegister(_) => true,
        Instruction::Or(_) => true,
        Instruction::And(_) => true,
        Instruction::Xor(_) => true,
        Instruction::Add(_) => true,
        Instruction::Sub(_) => true,
        Instruction::ShiftRight(_) => true,
        Instruction::SubInverted(_) => true,
        Instruction::ShiftLeft(_) => true,
        Instruction::SkipNotEqualReg(_) => true,
        Instruction::LoadI(a) => a < 0x1000,
        Instruction::JumpAddressOffset(a) => a < 0x1000,
        Instruction::RandRange(r, _) => r < 16,
        Instruction::Draw(_, _) => true,
        Instruction::SkipPressed(r) => r < 16,
        Instruction::SkipNotPressed(r) => r < 16,
        Instruction::LoadRegisterDelayTimer(r) => r < 16,
        Instruction::LoadKeyPress(r) => r < 16,
        Instruction::LoadDelayTimerRegister(r) => r < 16,
        Instruction::LoadSoundTimerRegister(r) => r < 16,
        Instruction::AddAddresssRegister(r) => r < 16,
        Instruction::LoadSpriteAddress(r) => r < 16,
    }
}

/// Decoding is defined for every 16-bit word, and what it yields is
/// well formed: register ids below 16 and addresses below `0x1000`.
pub proof fn lemma_decode_total_wf(value: u16)
    ensures
        instr_wf(spec_decode(value)),
{
    assert((value >> 8) & 0xF < 16) by (bit_vector);
    assert(value & 0xFFF < 0x1000) by (bit_vector);
}

/// Decode one 16-bit opcode word. Total: every word yields a variant, and
/// always the same one.
pub fn decode(value: u16) -> (r: Instruction)
    ensures
        r == spec_decode(value),
        instr_wf(r),
{
    proof {
        lemma_decode_total_wf(value);
    }
    let family = value >> 12;
    let addr = value & 0xFFF;
    let reg = ((value >> 8) & 0xF) as u8;
    let byte = (value & 0xFF) as u8;
    let pair = ((value >> 4) & 0xFF) as u8;
    let low = value & 0xF;
    if value == 0x00E0 {
        Instruction::ClearScreen
    } else if value == 0x00EE {
        Instruction::Return
    } else if family == 0x0 {
        Instruction::SystemAddress(addr)
    } else if family == 0x1 {
        Instruction::JumpAddress(addr)
    } else if family == 0x2 {
        Instruction::CallAddress(addr)
    } else if family == 0x3 {
        Instruction::SkipEqualRegByte(reg, byte)
    } else if family == 0x4 {
        Instruction::SkipNotEqualRegByte(reg, byte)
    } else if family == 0x5 && low == 0x0 {
        Instruction::SkipEqualRegisters(pair)
    } else if family == 0x6 {
        Instruction::LoadByte(reg, byte)
    } else if family == 0x7 {
        Instruction::AddByte(reg, byte)
    } else if family == 0x8 && low == 0x0 {
        Instruction::LoadRegister(pair)
    } else if family == 0x8 && low == 0x1 {
        Instruction::Or(pair)
    } else if family == 0x8 && low == 0x2 {
        Instruction::And(pair)
    } else if family == 0x8 && low == 0x3 {
        Instruction::Xor(pair)
    } else if family == 0x8 && low == 0x4 {
        Instruction::Add(pair)
    } else if family == 0x8 && low == 0x5 {
        Instruction::Sub(pair)
    } else if family == 0x8 && low == 0x6 {
        Instruction::ShiftRight(pair)
    } else if family == 0x8 && low == 0x7 {
        Instruction::SubInverted(pair)
    } else if family == 0x8 && low == 0xE {
        Instruction::ShiftLeft(pair)
    } else if family == 0x9 && low == 0x0 {
        Instruction::SkipNotEqualReg(pair)
    } else if family == 0xA {
        Instruction::LoadI(addr)
    } else if family == 0xB {
        Instruction::JumpAddressOffset(addr)
    } else if family == 0xC {
        Instruction::RandRange(reg, byte)
    } else if family == 0xD {
        Instruction::Draw(pair, byte)
    } else if family == 0xE && byte == 0x9E {
        Instruction::SkipPressed(reg)
    } else if family == 0xE && byte == 0xA1 {
        Instruction::SkipNotPressed(reg)
    } else if family == 0xF && byte == 0x07 {
        Instruction::LoadRegisterDelayTimer(reg)
    } else if family == 0xF && byte == 0x0A {
        Instruction::LoadKeyPress(reg)
    } else if family == 0xF && byte == 0x15 {
        Instruction::LoadDelayTimerRegister(reg)
    } else if family == 0xF && byte == 0x18 {
        Instruction::LoadSoundTimerRegister(reg)
    } else if family == 0xF && byte == 0x1E {
        Instruction::AddAddresssRegister(reg)
    } else if family == 0xF && byte == 0x29 {
        Instruction::LoadSpriteAddress(reg)
    } else {
        Instruction::SystemAddress(addr)
    }
}

impl From<u16> for Instruction {
    /// Decode the word; same as [`decode`].
    fn from(value: u16) -> (r: Self) {
        decode(value)
    }
}

impl vstd::std_specs::convert::FromSpecImpl<u16> for Instruction {
    open spec fn obeys_from_spec() -> bool {
        true
    }

    open spec fn from_spec(v: u16) -> Instruction {
        spec_decode(v)
    }
}

} // verus!
