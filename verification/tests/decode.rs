//! Tests of the total instruction decoder.

use chip_8::instruction::{decode, Instruction};

#[test]
fn decode_is_total_and_deterministic() {
    // Every 16-bit word decodes without panicking, and always the same way.
    for w in 0..=0xFFFFu16 {
        let a = decode(w);
        let b = decode(w);
        assert_eq!(a, b);
    }
}

#[test]
fn decode_literal_opcodes() {
    assert_eq!(decode(0x00E0), Instruction::ClearScreen);
    assert_eq!(decode(0x00EE), Instruction::Return);
}

#[test]
fn decode_system_address_family() {
    assert_eq!(decode(0x0000), Instruction::SystemAddress(0x000));
    assert_eq!(decode(0x0123), Instruction::SystemAddress(0x123));
    assert_eq!(decode(0x0FFF), Instruction::SystemAddress(0xFFF));
}

#[test]
fn decode_jump_and_call() {
    assert_eq!(decode(0x1ABC), Instruction::JumpAddress(0xABC));
    assert_eq!(decode(0x2ABC), Instruction::CallAddress(0xABC));
    assert_eq!(decode(0xB123), Instruction::JumpAddressOffset(0x123));
}

#[test]
fn decode_skip_families() {
    assert_eq!(decode(0x3A12), Instruction::SkipEqualRegByte(0xA, 0x12));
    assert_eq!(decode(0x4A12), Instruction::SkipNotEqualRegByte(0xA, 0x12));
    assert_eq!(decode(0x5120), Instruction::SkipEqualRegisters(0x12));
    assert_eq!(decode(0x9AB0), Instruction::SkipNotEqualReg(0xAB));
}

#[test]
fn decode_immediate_families() {
    assert_eq!(decode(0x6A05), Instruction::LoadByte(0xA, 0x05));
    assert_eq!(decode(0x7A03), Instruction::AddByte(0xA, 0x03));
    assert_eq!(decode(0xA123), Instruction::LoadI(0x123));
    assert_eq!(decode(0xC512), Instruction::RandRange(0x5, 0x12));
}

#[test]
fn decode_alu_family() {
    assert_eq!(decode(0x8AB0), Instruction::LoadRegister(0xAB));
    assert_eq!(decode(0x8AB1), Instruction::Or(0xAB));
    assert_eq!(decode(0x8AB2), Instruction::And(0xAB));
    assert_eq!(decode(0x8AB3), Instruction::Xor(0xAB));
    assert_eq!(decode(0x8AB4), Instruction::Add(0xAB));
    assert_eq!(decode(0x8AB5), Instruction::Sub(0xAB));
    assert_eq!(decode(0x8AB6), Instruction::ShiftRight(0xAB));
    assert_eq!(decode(0x8AB7), Instruction::SubInverted(0xAB));
    assert_eq!(decode(0x8ABE), Instruction::ShiftLeft(0xAB));
}

#[test]
fn decode_draw_and_keys() {
    assert_eq!(decode(0xD5A3), Instruction::Draw(0x5A, 0xA3));
    assert_eq!(decode(0xE59E), Instruction::SkipPressed(0x5));
    assert_eq!(decode(0xE5A1), Instruction::SkipNotPressed(0x5));
}

#[test]
fn decode_timer_and_transfer_family() {
    assert_eq!(decode(0xF507), Instruction::LoadRegisterDelayTimer(0x5));
    assert_eq!(decode(0xF50A), Instruction::LoadKeyPress(0x5));
    assert_eq!(decode(0xF515), Instruction::LoadDelayTimerRegister(0x5));
    assert_eq!(decode(0xF518), Instruction::LoadSoundTimerRegister(0x5));
    assert_eq!(decode(0xF51E), Instruction::AddAddresssRegister(0x5));
    assert_eq!(decode(0xF529), Instruction::LoadSpriteAddress(0x5));
}

#[test]
fn decode_malformed_patterns_resolve_to_system_address() {
    // Patterns whose disambiguating nibble or byte matches no instruction
    // decode to the ignored system call, never to an error.
    assert_eq!(decode(0x5121), Instruction::SystemAddress(0x121));
    assert_eq!(decode(0x8AB8), Instruction::SystemAddress(0xAB8));
    assert_eq!(decode(0x8ABF), Instruction::SystemAddress(0xABF));
    assert_eq!(decode(0x9AB1), Instruction::SystemAddress(0xAB1));
    assert_eq!(decode(0xE500), Instruction::SystemAddress(0x500));
    assert_eq!(decode(0xF500), Instruction::SystemAddress(0x500));
    assert_eq!(decode(0xF555), Instruction::SystemAddress(0x555));
}

#[test]
fn decode_through_from_impl() {
    assert_eq!(Instruction::from(0x6A05), Instruction::LoadByte(0xA, 0x05));
    let i: Instruction = 0x00E0u16.into();
    assert_eq!(i, Instruction::ClearScreen);
}
