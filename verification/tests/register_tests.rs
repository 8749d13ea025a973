//! Tests of the register file and its two countdown timers.

use chip_8::registers::Registers;

#[test]
fn new_registers_are_zero() {
    let r = Registers::new();
    for id in 0..16u8 {
        assert_eq!(r.get_value(id), Some(0));
    }
    assert_eq!(r.address(), 0);
    assert_eq!(r.delay(), 0);
    assert_eq!(r.sound_timer(), 0);
}

#[test]
fn get_value_rejects_bad_ids() {
    let r = Registers::new();
    assert_eq!(r.get_value(16), None);
    assert_eq!(r.get_value(0xFF), None);
}

#[test]
fn get_value_mut_writes_one_register() {
    let mut r = Registers::new();
    *r.get_value_mut(10).unwrap() = 55;
    assert_eq!(r.get_value(10), Some(55));
    assert_eq!(r.get_value(9), Some(0));
    assert!(r.get_value_mut(16).is_none());
}

#[test]
fn address_register_reads_and_writes() {
    let mut r = Registers::new();
    *r.address_mut() = 0x0ABC;
    assert_eq!(r.address(), 0x0ABC);
}

#[test]
fn timers_set_and_read() {
    let mut r = Registers::new();
    r.set_delay(7);
    r.set_sound_timer(3);
    assert_eq!(r.delay(), 7);
    assert_eq!(r.sound_timer(), 3);
}

#[test]
fn cycle_counts_both_timers_down_independently() {
    let mut r = Registers::new();
    r.set_delay(2);
    r.set_sound_timer(1);
    r.cycle();
    assert_eq!(r.delay(), 1);
    assert_eq!(r.sound_timer(), 0);
    r.cycle();
    assert_eq!(r.delay(), 0);
    assert_eq!(r.sound_timer(), 0);
}

#[test]
fn cycle_floors_at_zero() {
    // A timer already at zero stays at zero however often it is ticked.
    let mut r = Registers::new();
    for _ in 0..10 {
        r.cycle();
        assert_eq!(r.delay(), 0);
        assert_eq!(r.sound_timer(), 0);
    }
}

#[test]
fn slice_reads_a_run_of_registers() {
    let mut r = Registers::new();
    *r.get_value_mut(2).unwrap() = 9;
    let run = r.slice(1..4).unwrap();
    assert_eq!(run, &[0, 9, 0]);
    assert!(r.slice(0..17).is_none());
    assert!(r.slice(5..4).is_none());
}

#[test]
fn slice_mut_writes_a_run_of_registers() {
    let mut r = Registers::new();
    assert!(r.slice_mut(4..7, &[1, 2, 3]));
    assert_eq!(r.get_value(4), Some(1));
    assert_eq!(r.get_value(5), Some(2));
    assert_eq!(r.get_value(6), Some(3));
    assert_eq!(r.get_value(7), Some(0));
    assert!(!r.slice_mut(14..17, &[1, 2, 3]));
    assert!(!r.slice_mut(0..2, &[1]));
}
