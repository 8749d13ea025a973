//! Tests of the address space, the protected regions, and the call stack.

use chip_8::memory::Memory;

#[test]
fn new_preloads_the_font() {
    let m = Memory::new();
    // Glyph 0 starts at 0x000.
    assert_eq!(m.load(0x000), Some(0xF0));
    assert_eq!(m.load(0x001), Some(0x90));
    assert_eq!(m.load(0x004), Some(0xF0));
    // Glyph F ends at 0x04F.
    assert_eq!(m.load(0x04B), Some(0xF0));
    assert_eq!(m.load(0x04F), Some(0x80));
    // Everything past the font starts zeroed.
    assert_eq!(m.load(0x050), Some(0x00));
    assert_eq!(m.load(0x200), Some(0x00));
    assert_eq!(m.load(0xFFF), Some(0x00));
}

#[test]
fn load_fails_past_the_address_space() {
    let m = Memory::new();
    assert_eq!(m.load(0x1000), None);
    assert_eq!(m.load(0xFFFF), None);
}

#[test]
fn store_respects_the_protected_region() {
    let mut m = Memory::new();
    assert!(!m.store(0x000, 0xAA));
    assert!(!m.store(0x1FF, 0xAA));
    assert!(!m.store(0x1000, 0xAA));
    assert_eq!(m.load(0x000), Some(0xF0));
    assert_eq!(m.load(0x1FF), Some(0x00));
    assert!(m.store(0x200, 0xAA));
    assert_eq!(m.load(0x200), Some(0xAA));
    assert!(m.store(0xFFF, 0xBB));
    assert_eq!(m.load(0xFFF), Some(0xBB));
}

#[test]
fn push_and_pop_round_trip() {
    let mut m = Memory::new();
    assert!(m.push(0x0300));
    assert!(m.push(0x0FFE));
    assert_eq!(m.pop(), Some(0x0FFE));
    assert_eq!(m.pop(), Some(0x0300));
    assert_eq!(m.pop(), None);
}

#[test]
fn push_rejects_addresses_outside_the_program_region() {
    let mut m = Memory::new();
    assert!(!m.push(0x0000));
    assert!(!m.push(0x01FF));
    assert!(!m.push(0x1000));
    assert!(!m.push(0xFFFF));
    assert_eq!(m.pop(), None);
}

#[test]
fn pop_past_empty_fails_cleanly() {
    let mut m = Memory::new();
    assert_eq!(m.pop(), None);
    assert!(m.push(0x0234));
    assert_eq!(m.pop(), Some(0x0234));
    assert_eq!(m.pop(), None);
    assert_eq!(m.pop(), None);
}

#[test]
fn stack_fills_and_fails_cleanly_without_corruption() {
    let mut m = Memory::new();
    // The stack lives in [0x050, 0x200): room for 215 two-byte entries,
    // since a push that would reach 0x200 is refused.
    let mut pushed = 0u32;
    while m.push(0x0234 + (pushed % 100) as u16) {
        pushed += 1;
    }
    assert_eq!(pushed, 215);
    // Further pushes keep failing and corrupt nothing.
    assert!(!m.push(0x0300));
    // Every prior entry comes back intact, newest first.
    for i in (0..pushed).rev() {
        assert_eq!(m.pop(), Some(0x0234 + (i % 100) as u16));
    }
    assert_eq!(m.pop(), None);
}

#[test]
fn slice_reads_any_region() {
    let m = Memory::new();
    let font_head = m.slice(0x000..0x005).unwrap();
    assert_eq!(font_head, &[0xF0, 0x90, 0x90, 0x90, 0xF0]);
    let tail = m.slice(0xFFE..0x1000).unwrap();
    assert_eq!(tail, &[0x00, 0x00]);
    let empty = m.slice(0x300..0x300).unwrap();
    assert_eq!(empty.len(), 0);
}

#[test]
fn slice_rejects_bad_ranges() {
    let m = Memory::new();
    assert!(m.slice(0x300..0x1001).is_none());
    assert!(m.slice(0x305..0x300).is_none());
}

#[test]
fn slice_mut_writes_the_program_region() {
    let mut m = Memory::new();
    assert!(m.slice_mut(0x200..0x204, &[1, 2, 3, 4]));
    assert_eq!(m.load(0x200), Some(1));
    assert_eq!(m.load(0x203), Some(4));
    assert_eq!(m.load(0x204), Some(0));
}

#[test]
fn slice_mut_rejects_protected_or_misfit_ranges() {
    let mut m = Memory::new();
    assert!(!m.slice_mut(0x1FF..0x203, &[1, 2, 3, 4]));
    assert!(!m.slice_mut(0xFFE..0x1002, &[1, 2, 3, 4]));
    assert!(!m.slice_mut(0x200..0x204, &[1, 2, 3]));
    assert_eq!(m.load(0x200), Some(0));
}

#[test]
fn default_is_the_fresh_memory() {
    let m = Memory::default();
    assert_eq!(m.load(0x000), Some(0xF0));
    assert_eq!(m.load(0x200), Some(0x00));
}
