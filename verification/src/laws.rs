//! Laws of the engine, proved from the step specification: the bit-exact
//! flag rules of the arithmetic and shift instructions, and the call/return
//! round trip.

use crate::engine::{
    alu_shl, alu_shr, eng_wf, fetch_word, push_model, rx, ry, spec_exec, spec_step,
    stack_after_push, EngModel, FETCH_LIMIT,
};
use crate::instruction::{spec_decode, Instruction};
use crate::memory::{stack, stack_len, MEMORY_SIZE, PROGRAM_START, STACK_BASE};
use crate::registers::FLAGS_REGISTER;
use vstd::prelude::*;

verus! {

/// Add: register x takes the 8-bit wrapped sum of x and y, and the flags
/// register becomes 1 exactly when the unsigned sum exceeds 255.
pub proof fn lemma_add_flag(s: EngModel, screen: Seq<bool>, keys: u16, rnd: u8, p: u8)
    requires
        eng_wf(s),
    ensures
        ({
            let vx = s.regs.regs[rx(p) as int];
            let vy = s.regs.regs[ry(p) as int];
            let out = spec_exec(s, Instruction::Add(p), screen, keys, rnd);
            &&& out.result is Ok
            &&& out.state.regs.regs[FLAGS_REGISTER as int] == (if vx + vy > 255 {
                1u8
            } else {
                0u8
            })
            &&& rx(p) != FLAGS_REGISTER ==> out.state.regs.regs[rx(p) as int] == ((vx + vy)
                % 256) as u8
        }),
{
    crate::engine::lemma_pair_nibbles(p);
    let vx = s.regs.regs[rx(p) as int];
    let vy = s.regs.regs[ry(p) as int];
    assert(0 <= vx + vy < 512);
    if vx + vy > 255 {
        assert((vx + vy) % 256 == vx + vy - 256);
    } else {
        assert((vx + vy) % 256 == vx + vy);
    }
}

/// Subtract: register x takes the 8-bit wrapped difference x minus y, and
/// the flags register becomes 1 exactly when no borrow occurs, that is when
/// x was at least y.
pub proof fn lemma_sub_flag(s: EngModel, screen: Seq<bool>, keys: u16, rnd: u8, p: u8)
    requires
        eng_wf(s),
    ensures
        ({
            let vx = s.regs.regs[rx(p) as int];
            let vy = s.regs.regs[ry(p) as int];
            let out = spec_exec(s, Instruction::Sub(p), screen, keys, rnd);
            &&& out.result is Ok
            &&& out.state.regs.regs[FLAGS_REGISTER as int] == (if vx >= vy {
                1u8
            } else {
                0u8
            })
            &&& rx(p) != FLAGS_REGISTER ==> out.state.regs.regs[rx(p) as int] == ((vx - vy + 256)
                % 256) as u8
        }),
{
    crate::engine::lemma_pair_nibbles(p);
    let vx = s.regs.regs[rx(p) as int];
    let vy = s.regs.regs[ry(p) as int];
    if vx >= vy {
        assert((vx - vy + 256) % 256 == vx - vy);
    } else {
        assert((vx - vy + 256) % 256 == vx - vy + 256);
    }
}

/// Inverted subtract: register x takes the 8-bit wrapped difference y minus
/// x, and the flags register becomes 1 exactly when no borrow occurs, that
/// is when y was at least x.
pub proof fn lemma_sub_inverted_flag(s: EngModel, screen: Seq<bool>, keys: u16, rnd: u8, p: u8)
    requires
        eng_wf(s),
    ensures
        ({
            let vx = s.regs.regs[rx(p) as int];
            let vy = s.regs.regs[ry(p) as int];
            let out = spec_exec(s, Instruction::SubInverted(p), screen, keys, rnd);
            &&& out.result is Ok
            &&& out.state.regs.regs[FLAGS_REGISTER as int] == (if vy >= vx {
                1u8
            } else {
                0u8
            })
            &&& rx(p) != FLAGS_REGISTER ==> out.state.regs.regs[rx(p) as int] == ((vy - vx + 256)
                % 256) as u8
        }),
{
    crate::engine::lemma_pair_nibbles(p);
    let vx = s.regs.regs[rx(p) as int];
    let vy = s.regs.regs[ry(p) as int];
    if vy >= vx {
        assert((vy - vx + 256) % 256 == vy - vx);
    } else {
        assert((vy - vx + 256) % 256 == vy - vx + 256);
    }
}

/// Shift right: the flags register becomes bit 0 of register x before the
/// shift, and register x is shifted right by one.
pub proof fn lemma_shift_right_flag(s: EngModel, screen: Seq<bool>, keys: u16, rnd: u8, p: u8)
    requires
        eng_wf(s),
    ensures
        ({
            let vx = s.regs.regs[rx(p) as int];
            let out = spec_exec(s, Instruction::ShiftRight(p), screen, keys, rnd);
            &&& out.result is Ok
            &&& out.state.regs.regs[FLAGS_REGISTER as int] == vx & 1
            &&& rx(p) != FLAGS_REGISTER ==> out.state.regs.regs[rx(p) as int] == vx >> 1
        }),
{
    crate::engine::lemma_pair_nibbles(p);
    let vx = s.regs.regs[rx(p) as int];
    assert(vx & 1 == alu_shr(vx).1) by (bit_vector);
    assert(vx >> 1 == alu_shr(vx).0) by (bit_vector);
}

/// Shift left: the flags register becomes bit 7 of register x before the
/// shift, and register x is shifted left by one, wrapping.
pub proof fn lemma_shift_left_flag(s: EngModel, screen: Seq<bool>, keys: u16, rnd: u8, p: u8)
    requires
        eng_wf(s),
    ensures
        ({
            let vx = s.regs.regs[rx(p) as int];
            let out = spec_exec(s, Instruction::ShiftLeft(p), screen, keys, rnd);
            &&& out.result is Ok
            &&& out.state.regs.regs[FLAGS_REGISTER as int] == vx >> 7
            &&& rx(p) != FLAGS_REGISTER ==> out.state.regs.regs[rx(p) as int] == (vx << 1) as u8
        }),
{
    crate::engine::lemma_pair_nibbles(p);
    let vx = s.regs.regs[rx(p) as int];
    assert(vx >> 7 == alu_shl(vx).1) by (bit_vector);
    assert((vx << 1) as u8 == alu_shl(vx).0) by (bit_vector);
}

/// A call followed immediately by a return comes back: with a call
/// instruction at the program counter whose push succeeds, and the return
/// opcode at the call's target, two steps leave the program counter exactly
/// where it stood immediately after the call instruction, and the call
/// stack exactly as deep as before the call.
pub proof fn lemma_call_then_return(
    s: EngModel,
    screen: Seq<bool>,
    keys: u16,
    rnd1: u8,
    rnd2: u8,
    target: u16,
)
    requires
        eng_wf(s),
        s.waiting is None,
        s.pc < FETCH_LIMIT,
        spec_decode(fetch_word(s)) == Instruction::CallAddress(target),
        PROGRAM_START <= s.pc + 2 < MEMORY_SIZE,
        s.mem.sp + 2 < PROGRAM_START,
        PROGRAM_START <= target < FETCH_LIMIT,
        s.mem.bytes[target as int] == 0x00,
        s.mem.bytes[target as int + 1] == 0xEE,
    ensures
        ({
            let out1 = spec_step(s, screen, keys, rnd1);
            let out2 = spec_step(out1.state, out1.screen, keys, rnd2);
            &&& out1.result is Ok
            &&& out1.state.pc == target
            &&& stack_len(out1.state.mem) == stack_len(s.mem) + 1
            &&& out2.result is Ok
            &&& out2.state.pc == s.pc + 2
            &&& stack_len(out2.state.mem) == stack_len(s.mem)
        }),
{
    let ret = (s.pc + 2) as u16;
    let out1 = spec_step(s, screen, keys, rnd1);
    let s1 = out1.state;
    assert(s1.mem == push_model(s.mem, ret));
    stack_after_push(s.mem, ret);
    assert(fetch_word(s1) == 0x00EE) by {
        assert(s1.mem.bytes[target as int] == 0x00);
        assert(s1.mem.bytes[target as int + 1] == 0xEE);
    }
    assert(spec_decode(0x00EE) == Instruction::Return);
    let out2 = spec_step(s1, out1.screen, keys, rnd2);
    assert(s1.mem.sp > STACK_BASE);
    assert(out2.state.pc == stack(s1.mem).last());
    assert(stack(s1.mem).last() == ret);
}

} // verus!
