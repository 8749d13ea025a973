//! The execution engine: fetch, decode, execute, advance.
//!
//! The engine owns the memory and the register file and exposes two
//! independent clocks: [`Engine::step`] executes one instruction, and
//! [`Engine::tick`] moves both countdown timers, to be driven by the host at
//! a steady cadence of its own. The host owns the display surface and the
//! keyboard: each step takes the surface and the currently pressed keys as
//! arguments, and the one suspension point — the key-wait instruction —
//! is cooperative: while it waits, each step returns without consuming an
//! instruction until a key is reported pressed.
//!
//! The whole transition is pinned down by the specification function
//! [`spec_step`]: what one step does to the engine, the display and the
//! caller, for every state, key set and random byte.

use crate::display::{draw_sprite, spec_draw_sprite, Display, SCREEN_HEIGHT, SCREEN_WIDTH};
use crate::instruction::{decode, instr_wf, spec_decode, Instruction};
use crate::memory::{
    mem_wf, stack, stack_entry, stack_len, Memory, MemModel, MEMORY_SIZE, PROGRAM_START,
    STACK_BASE,
};
use vstd::assert_seqs_equal;
use crate::registers::{tick1, RegModel, Registers, FLAGS_REGISTER, REGISTER_COUNT};
use vstd::prelude::*;

verus! {

/// The exclusive bound on fetchable program counters: a full two-byte
/// instruction word can be fetched only while the counter is below it.
pub const FETCH_LIMIT: u16 = 0xFFF;

/// A failure surfaced by one step. None of them corrupts the rest of the
/// state, and none stops later steps; the host decides whether to go on.
#[derive(Clone, Copy, Debug, PartialEq, Eq, Structural)]
pub enum StepError {
    /// The program counter ran past the last full instruction word; fetching
    /// is impossible. The recoverable halt signal.
    OutOfBoundsFetch,

    /// A call could not push its return address: the stack is out of room,
    /// or the return address would lie outside the program region. The call
    /// does not happen; the program counter is left on the call instruction.
    StackOverflow,

    /// A return found the call stack empty. The program counter is left on
    /// the return instruction.
    StackUnderflow,

    /// A draw would read sprite rows past the end of memory. Nothing is
    /// drawn; the program counter is left on the draw instruction.
    OutOfBoundsSpriteRead,
}

/// The mathematical model of an [`Engine`].
pub struct EngModel {
    /// The memory model.
    pub mem: MemModel,

    /// The register file model.
    pub regs: RegModel,

    /// The program counter.
    pub pc: u16,

    /// `Some(register)` while suspended by the key-wait instruction: the
    /// register that the awaited key value will land in.
    pub waiting: Option<u8>,
}

/// What one step yields: the next engine state, the next display contents,
/// and what the caller is told.
pub struct StepOut {
    /// The engine state after the step.
    pub state: EngModel,

    /// The display contents after the step.
    pub screen: Seq<bool>,

    /// The value returned to the host.
    pub result: Result<(), StepError>,
}

/// Well-formedness of the whole machine: memory and registers well formed,
/// and any recorded key-wait names a real register and was entered at a
/// fetchable program counter.
pub open spec fn eng_wf(s: EngModel) -> bool {
    &&& mem_wf(s.mem)
    &&& s.regs.regs.len() == REGISTER_COUNT
    &&& (s.waiting matches Some(r) ==> r < REGISTER_COUNT)
    &&& (s.waiting is Some ==> s.pc < FETCH_LIMIT)
}

/// Register x of a packed register pair: the high nibble.
pub open spec fn rx(pair: u8) -> u8 {
    pair >> 4
}

/// Register y of a packed register pair: the low nibble.
pub open spec fn ry(pair: u8) -> u8 {
    pair & 0xF
}

/// Both nibbles of a packed register pair are valid register ids.
pub proof fn lemma_pair_nibbles(p: u8)
    ensures
        rx(p) == p >> 4,
        ry(p) == p & 0xF,
        p >> 4 < 16,
        p & 0xF < 16,
{
    assert(p >> 4 < 16) by (bit_vector);
    assert(p & 0xF < 16) by (bit_vector);
}

/// 16-bit addition that wraps around, as the address register and the
/// program counter do.
pub open spec fn wrap_add16(a: u16, b: u16) -> u16 {
    if a + b > 0xFFFF {
        (a + b - 0x10000) as u16
    } else {
        (a + b) as u16
    }
}

/// The program counter after a straight-line instruction (+2) or a
/// conditional skip that fired (+4).
pub open spec fn pc_next(pc: u16, skip: bool) -> u16 {
    wrap_add16(pc, if skip { 4 } else { 2 })
}

/// Wrapping 8-bit add with its carry flag: the flag is 1 exactly when the
/// unsigned sum exceeds 255.
pub open spec fn alu_add(x: u8, y: u8) -> (u8, u8) {
    (
        if x + y > 255 {
            (x + y - 256) as u8
        } else {
            (x + y) as u8
        },
        if x + y > 255 {
            1u8
        } else {
            0u8
        },
    )
}

/// Wrapping 8-bit subtract `x - y` with its no-borrow flag: the flag is 1
/// exactly when `x >= y`, that is when no borrow occurs.
pub open spec fn alu_sub(x: u8, y: u8) -> (u8, u8) {
    (
        if x >= y {
            (x - y) as u8
        } else {
            (x - y + 256) as u8
        },
        if x >= y {
            1u8
        } else {
            0u8
        },
    )
}

/// Logical shift right by one with its flag: the flag is bit 0 of the value
/// before the shift.
pub open spec fn alu_shr(x: u8) -> (u8, u8) {
    (
        (x / 2) as u8,
        if x % 2 == 1 {
            1u8
        } else {
            0u8
        },
    )
}

/// Wrapping shift left by one with its flag: the flag is bit 7 of the value
/// before the shift.
pub open spec fn alu_shl(x: u8) -> (u8, u8) {
    (
        if 2 * x > 255 {
            (2 * x - 256) as u8
        } else {
            (2 * x) as u8
        },
        if x >= 128 {
            1u8
        } else {
            0u8
        },
    )
}

/// The register file with one general register replaced.
pub open spec fn with_reg(r: RegModel, id: u8, v: u8) -> RegModel {
    RegModel { regs: r.regs.update(id as int, v), ..r }
}

/// The register file after an arithmetic or shift operation: first the
/// result lands in register x, then the flag lands in the flags register —
/// so when x is the flags register itself, the flag wins.
pub open spec fn with_arith(r: RegModel, x: u8, out: (u8, u8)) -> RegModel {
    with_reg(with_reg(r, x, out.0), FLAGS_REGISTER, out.1)
}

/// Whether the key `k` (0 to 15) is pressed, given the host's key set: one
/// bit per key, key 0 the least significant.
pub open spec fn key_pressed(keys: u16, k: u8) -> bool
    recommends
        k < 16,
{
    (keys >> (k as u16)) & 1 == 1
}

/// The lowest pressed key at or above `k`, if any.
pub open spec fn first_key_from(keys: u16, k: int) -> Option<u8>
    decreases 16 - k,
{
    if k < 0 || k >= 16 {
        None
    } else if key_pressed(keys, k as u8) {
        Some(k as u8)
    } else {
        first_key_from(keys, k + 1)
    }
}

/// The lowest pressed key, if any: the one the key-wait instruction takes.
pub open spec fn first_key(keys: u16) -> Option<u8> {
    first_key_from(keys, 0)
}

/// The big-endian 16-bit instruction word at the program counter.
pub open spec fn fetch_word(s: EngModel) -> u16
    recommends
        s.pc + 1 < s.mem.bytes.len(),
{
    ((s.mem.bytes[s.pc as int] as int) * 256 + (s.mem.bytes[s.pc as int + 1] as int)) as u16
}

/// The memory after a push: the return address stored big-endian at the
/// stack pointer, which moves up by two.
pub open spec fn push_model(m: MemModel, address: u16) -> MemModel {
    MemModel {
        bytes: m.bytes.update(m.sp as int, (address >> 8) as u8).update(
            m.sp as int + 1,
            (address & 0xFF) as u8,
        ),
        sp: (m.sp + 2) as u16,
    }
}

/// The memory after a pop: the stack pointer moves down by two, the bytes
/// stay.
pub open spec fn pop_model(m: MemModel) -> MemModel {
    MemModel { sp: (m.sp - 2) as u16, ..m }
}

/// A successful push appends exactly the pushed address to the call stack
/// and preserves well-formedness.
pub proof fn stack_after_push(m: MemModel, address: u16)
    requires
        mem_wf(m),
        m.sp + 2 < PROGRAM_START,
        PROGRAM_START <= address < MEMORY_SIZE,
    ensures
        ({
            let m1 = push_model(m, address);
            &&& stack_len(m1) == stack_len(m) + 1
            &&& stack(m1) == stack(m).push(address)
            &&& stack(m1).last() == address
            &&& mem_wf(m1)
        }),
{
    let m1 = push_model(m, address);
    assert((((address >> 8) as u8) as int) * 256 + (((address & 0xFF) as u8) as int)
        == address as int) by (bit_vector);
    assert(stack_entry(m1, stack_len(m)) == address);
    assert forall|i: int| 0 <= i < stack_len(m) implies #[trigger] stack_entry(m1, i)
        == stack_entry(m, i) by {
        assert(STACK_BASE + 2 * i + 1 < m.sp);
    }
    assert forall|i: int| 0 <= i < stack_len(m1) implies PROGRAM_START <= #[trigger] stack_entry(
        m1,
        i,
    ) < MEMORY_SIZE by {
        if i < stack_len(m) {
            assert(stack_entry(m1, i) == stack_entry(m, i));
        }
    }
    assert_seqs_equal!(stack(m1) == stack(m).push(address));
}

/// An all-dark screen.
pub open spec fn blank_screen() -> Seq<bool> {
    Seq::new((SCREEN_WIDTH * SCREEN_HEIGHT) as nat, |i: int| false)
}

/// A step that only moves the program counter.
pub open spec fn out_advance(s: EngModel, screen: Seq<bool>, skip: bool) -> StepOut {
    StepOut {
        state: EngModel { pc: pc_next(s.pc, skip), ..s },
        screen,
        result: Ok(()),
    }
}

/// A step that replaces the register file and then moves the program counter
/// by two.
pub open spec fn out_regs(s: EngModel, screen: Seq<bool>, regs: RegModel) -> StepOut {
    StepOut {
        state: EngModel { regs, pc: pc_next(s.pc, false), ..s },
        screen,
        result: Ok(()),
    }
}

/// A step that fails, leaving everything as it was.
pub open spec fn out_err(s: EngModel, screen: Seq<bool>, e: StepError) -> StepOut {
    StepOut { state: s, screen, result: Err(e) }
}

/// What executing one decoded instruction does, with the program counter
/// still on that instruction. `keys` is the host's key set and `rnd` the
/// byte drawn for the random instruction.
pub open spec fn spec_exec(
    s: EngModel,
    instr: Instruction,
    screen: Seq<bool>,
    keys: u16,
    rnd: u8,
) -> StepOut {
    let r = s.regs;
    match instr {
        Instruction::SystemAddress(_) => out_advance(s, screen, false),
        Instruction::ClearScreen => out_advance(s, blank_screen(), false),
        Instruction::Return => if s.mem.sp == STACK_BASE {
            out_err(s, screen, StepError::StackUnderflow)
        } else {
            StepOut {
                state: EngModel { mem: pop_model(s.mem), pc: stack(s.mem).last(), ..s },
                screen,
                result: Ok(()),
            }
        },
        Instruction::JumpAddress(a) => StepOut {
            state: EngModel { pc: a, ..s },
            screen,
            result: Ok(()),
        },
        Instruction::CallAddress(a) => {
            let ret = (s.pc + 2) as u16;
            if PROGRAM_START <= ret < MEMORY_SIZE && s.mem.sp + 2 < PROGRAM_START {
                StepOut {
                    state: EngModel { mem: push_model(s.mem, ret), pc: a, ..s },
                    screen,
                    result: Ok(()),
                }
            } else {
                out_err(s, screen, StepError::StackOverflow)
            }
        },
        Instruction::SkipEqualRegByte(reg, b) => out_advance(
            s,
            screen,
            r.regs[reg as int] == b,
        ),
        Instruction::SkipNotEqualRegByte(reg, b) => out_advance(
            s,
            screen,
            r.regs[reg as int] != b,
        ),
        Instruction::SkipEqualRegisters(p) => out_advance(
            s,
            screen,
            r.regs[rx(p) as int] == r.regs[ry(p) as int],
        ),
        Instruction::LoadByte(reg, b) => out_regs(s, screen, with_reg(r, reg, b)),
        Instruction::AddByte(reg, b) => out_regs(
            s,
            screen,
            with_reg(r, reg, alu_add(r.regs[reg as int], b).0),
        ),
        Instruction::LoadRegister(p) => out_regs(
            s,
            screen,
            with_reg(r, rx(p), r.regs[ry(p) as int]),
        ),
        Instruction::Or(p) => out_regs(
            s,
            screen,
            with_reg(r, rx(p), r.regs[rx(p) as int] | r.regs[ry(p) as int]),
        ),
        Instruction::And(p) => out_regs(
            s,
            screen,
            with_reg(r, rx(p), r.regs[rx(p) as int] & r.regs[ry(p) as int]),
        ),
        Instruction::Xor(p) => out_regs(
            s,
            screen,
            with_reg(r, rx(p), r.regs[rx(p) as int] ^ r.regs[ry(p) as int]),
        ),
        Instruction::Add(p) => out_regs(
            s,
            screen,
            with_arith(r, rx(p), alu_add(r.regs[rx(p) as int], r.regs[ry(p) as int])),
        ),
        Instruction::Sub(p) => out_regs(
            s,
            screen,
            with_arith(r, rx(p), alu_sub(r.regs[rx(p) as int], r.regs[ry(p) as int])),
        ),
        Instruction::ShiftRight(p) => out_regs(
            s,
            screen,
            with_arith(r, rx(p), alu_shr(r.regs[rx(p) as int])),
        ),
        Instruction::SubInverted(p) => out_regs(
            s,
            screen,
            with_arith(r, rx(p), alu_sub(r.regs[ry(p) as int], r.regs[rx(p) as int])),
        ),
        Instruction::ShiftLeft(p) => out_regs(
            s,
            screen,
            with_arith(r, rx(p), alu_shl(r.regs[rx(p) as int])),
        ),
        Instruction::SkipNotEqualReg(p) => out_advance(
            s,
            screen,
            r.regs[rx(p) as int] != r.regs[ry(p) as int],
        ),
        Instruction::LoadI(a) => out_regs(s, screen, RegModel { address: a, ..r }),
        Instruction::JumpAddressOffset(a) => StepOut {
            state: EngModel { pc: wrap_add16(a, r.regs[0] as u16), ..s },
            screen,
            result: Ok(()),
        },
        Instruction::RandRange(reg, mask) => out_regs(s, screen, with_reg(r, reg, rnd & mask)),
        Instruction::Draw(p, low) => {
            let x = r.regs[rx(p) as int];
            let y = r.regs[ry(p) as int];
            let n = (low & 0xF) as u16;
            if r.address + n > MEMORY_SIZE {
                out_err(s, screen, StepError::OutOfBoundsSpriteRead)
            } else {
                let rows = s.mem.bytes.subrange(r.address as int, r.address + n);
                let drawn = spec_draw_sprite(screen, x as int, y as int, rows);
                StepOut {
                    state: EngModel {
                        regs: with_reg(
                            r,
                            FLAGS_REGISTER,
                            if drawn.1 {
                                1
                            } else {
                                0
                            },
                        ),
                        pc: pc_next(s.pc, false),
                        ..s
                    },
                    screen: drawn.0,
                    result: Ok(()),
                }
            }
        },
        Instruction::SkipPressed(reg) => out_advance(
            s,
            screen,
            key_pressed(keys, r.regs[reg as int] & 0xF),
        ),
        Instruction::SkipNotPressed(reg) => out_advance(
            s,
            screen,
            !key_pressed(keys, r.regs[reg as int] & 0xF),
        ),
        Instruction::LoadRegisterDelayTimer(reg) => out_regs(s, screen, with_reg(r, reg, r.delay)),
        Instruction::LoadKeyPress(reg) => StepOut {
            state: EngModel { waiting: Some(reg), ..s },
            screen,
            result: Ok(()),
        },
        Instruction::LoadDelayTimerRegister(reg) => out_regs(
            s,
            screen,
            RegModel { delay: r.regs[reg as int], ..r },
        ),
        Instruction::LoadSoundTimerRegister(reg) => out_regs(
            s,
            screen,
            RegModel { sound: r.regs[reg as int], ..r },
        ),
        Instruction::AddAddresssRegister(reg) => out_regs(
            s,
            screen,
            RegModel { address: wrap_add16(r.address, r.regs[reg as int] as u16), ..r },
        ),
        Instruction::LoadSpriteAddress(reg) => out_regs(
            s,
            screen,
            RegModel { address: (5 * (r.regs[reg as int] & 0xF)) as u16, ..r },
        ),
    }
}

/// What one whole step does: resume or keep waiting if suspended on the
/// key-wait instruction; otherwise fetch, decode, execute and advance. The
/// specification of [`Engine::step`].
pub open spec fn spec_step(s: EngModel, screen: Seq<bool>, keys: u16, rnd: u8) -> StepOut {
    match s.waiting {
        Some(reg) => match first_key(keys) {
            Some(k) => StepOut {
                state: EngModel {
                    regs: with_reg(s.regs, reg, k),
                    waiting: None,
                    pc: pc_next(s.pc, false),
                    ..s
                },
                screen,
                result: Ok(()),
            },
            None => StepOut { state: s, screen, result: Ok(()) },
        },
        None => if s.pc >= FETCH_LIMIT {
            out_err(s, screen, StepError::OutOfBoundsFetch)
        } else {
            spec_exec(s, spec_decode(fetch_word(s)), screen, keys, rnd)
        },
    }
}

/// The machine at start: memory fresh (font loaded, stack empty), registers
/// and timers zero, program counter at the start of the program region, not
/// waiting for a key.
pub open spec fn initial_engine() -> EngModel {
    EngModel {
        mem: MemModel { bytes: crate::memory::initial_bytes(), sp: STACK_BASE },
        regs: RegModel {
            regs: Seq::new(REGISTER_COUNT as nat, |i: int| 0u8),
            address: 0,
            delay: 0,
            sound: 0,
        },
        pc: PROGRAM_START,
        waiting: None,
    }
}

/// Relies on rand::random: one uniformly random byte from the thread-local
/// generator. Nothing is assumed of its value; callers must hold for every
/// byte that could come back.
#[verifier::external_body]
fn random_byte() -> u8 {
    rand::random()
}

/// Finds the lowest pressed key in the host's key set, if any.
fn first_pressed(keys: u16) -> (r: Option<u8>)
    ensures
        r == first_key(keys),
{
    let mut k: u8 = 0;
    while k < 16
        invariant
            k <= 16,
            first_key(keys) == first_key_from(keys, k as int),
        decreases 16 - k,
    {
        if (keys >> (k as u16)) & 1 == 1 {
            return Some(k);
        }
        k = k + 1;
    }
    None
}

/// The execution engine: the machine state and its two clocks.
pub struct Engine {
    /// The memory, owned for the life of the machine.
    memory: Memory,

    /// The register file, owned for the life of the machine.
    registers: Registers,

    /// The program counter.
    pc: u16,

    /// `Some(register)` while suspended by the key-wait instruction.
    waiting: Option<u8>,
}

impl View for Engine {
    type V = EngModel;

    closed spec fn view(&self) -> EngModel {
        EngModel {
            mem: self.memory@,
            regs: self.registers@,
            pc: self.pc,
            waiting: self.waiting,
        }
    }
}

impl Engine {
    /// Well-formedness of the whole machine; see [`eng_wf`].
    pub open spec fn wf(&self) -> bool {
        eng_wf(self@)
    }

    /// Builds the machine at start; see [`initial_engine`].
    pub fn new() -> (e: Engine)
        ensures
            e.wf(),
            e@ == initial_engine(),
    {
        Engine {
            memory: Memory::new(),
            registers: Registers::new(),
            pc: PROGRAM_START,
            waiting: None,
        }
    }

    /// Copies a program into the program region, to be done before the first
    /// step. Succeeds exactly when the bytes fit the region.
    pub fn load_program(&mut self, bytes: &[u8]) -> (r: bool)
        requires
            old(self).wf(),
        ensures
            final(self).wf(),
            r == (bytes@.len() <= MEMORY_SIZE - PROGRAM_START),
            !r ==> final(self)@ == old(self)@,
            r ==> final(self)@ == (EngModel {
                mem: MemModel {
                    bytes: Seq::new(
                        MEMORY_SIZE as nat,
                        |i: int|
                            if PROGRAM_START <= i < PROGRAM_START + bytes@.len() {
                                bytes@[i - PROGRAM_START]
                            } else {
                                old(self)@.mem.bytes[i]
                            },
                    ),
                    sp: old(self)@.mem.sp,
                },
                ..old(self)@
            }),
    {
        if bytes.len() > (MEMORY_SIZE - PROGRAM_START) as usize {
            return false;
        }
        let end = PROGRAM_START + bytes.len() as u16;
        let ok = self.memory.slice_mut(PROGRAM_START..end, bytes);
        proof {
            vstd::assert_seqs_equal!(self@.mem.bytes == Seq::new(
                MEMORY_SIZE as nat,
                |i: int|
                    if PROGRAM_START <= i < PROGRAM_START + bytes@.len() {
                        bytes@[i - PROGRAM_START]
                    } else {
                        old(self)@.mem.bytes[i]
                    },
            ));
        }
        ok
    }

    /// The program counter.
    pub fn pc(&self) -> (r: u16)
        ensures
            r == self@.pc,
    {
        self.pc
    }

    /// The register awaiting a key press, if the machine is suspended.
    pub fn awaiting_key(&self) -> (r: Option<u8>)
        ensures
            r == self@.waiting,
    {
        self.waiting
    }

    /// The register file, readable by the host.
    pub fn registers(&self) -> (r: &Registers)
        ensures
            r@ == self@.regs,
    {
        &self.registers
    }

    /// The memory, readable by the host.
    pub fn memory(&self) -> (r: &Memory)
        ensures
            r@ == self@.mem,
    {
        &self.memory
    }

    /// Executes one decoded instruction, the program counter still on it.
    fn exec_instr(
        &mut self,
        instr: Instruction,
        display: &mut Display,
        keys: u16,
        rnd: u8,
    ) -> (r: Result<(), StepError>)
        requires
            old(self).wf(),
            old(display).wf(),
            instr_wf(instr),
            old(self)@.waiting is None,
            old(self)@.pc < FETCH_LIMIT,
        ensures
            final(self).wf(),
            final(display).wf(),
            ({
                let out = spec_exec(old(self)@, instr, old(display)@, keys, rnd);
                final(self)@ == out.state && final(display)@ == out.screen && r == out.result
            }),
    {
        match instr {
            Instruction::SystemAddress(_) => {
                self.pc = self.pc.wrapping_add(2);
                Ok(())
            },
            Instruction::ClearScreen => {
                display.clear();
                proof {
                    vstd::assert_seqs_equal!(display@ == blank_screen());
                }
                self.pc = self.pc.wrapping_add(2);
                Ok(())
            },
            Instruction::Return => {
                match self.memory.pop() {
                    Some(address) => {
                        self.pc = address;
                        Ok(())
                    },
                    None => Err(StepError::StackUnderflow),
                }
            },
            Instruction::JumpAddress(a) => {
                self.pc = a;
                Ok(())
            },
            Instruction::CallAddress(a) => {
                let ret = self.pc + 2;
                if self.memory.push(ret) {
                    self.pc = a;
                    Ok(())
                } else {
                    Err(StepError::StackOverflow)
                }
            },
            Instruction::SkipEqualRegByte(reg, b) => {
                let skip = self.registers.read(reg) == b;
                self.pc = self.pc.wrapping_add(if skip { 4 } else { 2 });
                Ok(())
            },
            Instruction::SkipNotEqualRegByte(reg, b) => {
                let skip = self.registers.read(reg) != b;
                self.pc = self.pc.wrapping_add(if skip { 4 } else { 2 });
                Ok(())
            },
            Instruction::SkipEqualRegisters(p) => {
                proof {
                    lemma_pair_nibbles(p);
                }
                let skip = self.registers.read(p >> 4) == self.registers.read(p & 0xF);
                self.pc = self.pc.wrapping_add(if skip { 4 } else { 2 });
                Ok(())
            },
            Instruction::LoadByte(reg, b) => {
                self.registers.write(reg, b);
                self.pc = self.pc.wrapping_add(2);
                Ok(())
            },
            Instruction::AddByte(reg, b) => {
                let vx = self.registers.read(reg);
                let sum = vx as u16 + b as u16;
                let res = if sum > 255 {
                    (sum - 256) as u8
                } else {
                    sum as u8
                };
                self.registers.write(reg, res);
                self.pc = self.pc.wrapping_add(2);
                Ok(())
            },
            Instruction::LoadRegister(p) => {
                proof {
                    lemma_pair_nibbles(p);
                }
                let vy = self.registers.read(p & 0xF);
                self.registers.write(p >> 4, vy);
                self.pc = self.pc.wrapping_add(2);
                Ok(())
            },
            Instruction::Or(p) => {
                proof {
                    lemma_pair_nibbles(p);
                }
                let vx = self.registers.read(p >> 4);
                let vy = self.registers.read(p & 0xF);
                self.registers.write(p >> 4, vx | vy);
                self.pc = self.pc.wrapping_add(2);
                Ok(())
            },
            Instruction::And(p) => {
                proof {
                    lemma_pair_nibbles(p);
                }
                let vx = self.registers.read(p >> 4);
                let vy = self.registers.read(p & 0xF);
                self.registers.write(p >> 4, vx & vy);
                self.pc = self.pc.wrapping_add(2);
                Ok(())
            },
            Instruction::Xor(p) => {
                proof {
                    lemma_pair_nibbles(p);
                }
                let vx = self.registers.read(p >> 4);
                let vy = self.registers.read(p & 0xF);
                self.registers.write(p >> 4, vx ^ vy);
                self.pc = self.pc.wrapping_add(2);
                Ok(())
            },
            Instruction::Add(p) => {
                proof {
                    lemma_pair_nibbles(p);
                }
                let vx = self.registers.read(p >> 4);
                let vy = self.registers.read(p & 0xF);
                let sum = vx as u16 + vy as u16;
                let res = if sum > 255 {
                    (sum - 256) as u8
                } else {
                    sum as u8
                };
                let flag: u8 = if sum > 255 {
                    1
                } else {
                    0
                };
                self.registers.write(p >> 4, res);
                self.registers.write(FLAGS_REGISTER, flag);
                self.pc = self.pc.wrapping_add(2);
                Ok(())
            },
            Instruction::Sub(p) => {
                proof {
                    lemma_pair_nibbles(p);
                }
                let vx = self.registers.read(p >> 4);
                let vy = self.registers.read(p & 0xF);
                let res = if vx >= vy {
                    vx - vy
                } else {
                    ((vx as u16 + 256) - vy as u16) as u8
                };
                let flag: u8 = if vx >= vy {
                    1
                } else {
                    0
                };
                self.registers.write(p >> 4, res);
                self.registers.write(FLAGS_REGISTER, flag);
                self.pc = self.pc.wrapping_add(2);
                Ok(())
            },
            Instruction::ShiftRight(p) => {
                proof {
                    lemma_pair_nibbles(p);
                }
                let vx = self.registers.read(p >> 4);
                let flag: u8 = if vx % 2 == 1 {
                    1
                } else {
                    0
                };
                self.registers.write(p >> 4, vx / 2);
                self.registers.write(FLAGS_REGISTER, flag);
                self.pc = self.pc.wrapping_add(2);
                Ok(())
            },
            Instruction::SubInverted(p) => {
                proof {
                    lemma_pair_nibbles(p);
                }
                let vx = self.registers.read(p >> 4);
                let vy = self.registers.read(p & 0xF);
                let res = if vy >= vx {
                    vy - vx
                } else {
                    ((vy as u16 + 256) - vx as u16) as u8
                };
                let flag: u8 = if vy >= vx {
                    1
                } else {
                    0
                };
                self.registers.write(p >> 4, res);
                self.registers.write(FLAGS_REGISTER, flag);
                self.pc = self.pc.wrapping_add(2);
                Ok(())
            },
            Instruction::ShiftLeft(p) => {
                proof {
                    lemma_pair_nibbles(p);
                }
                let vx = self.registers.read(p >> 4);
                let doubled = vx as u16 * 2;
                let res = if doubled > 255 {
                    (doubled - 256) as u8
                } else {
                    doubled as u8
                };
                let flag: u8 = if vx >= 128 {
                    1
                } else {
                    0
                };
                self.registers.write(p >> 4, res);
                self.registers.write(FLAGS_REGISTER, flag);
                self.pc = self.pc.wrapping_add(2);
                Ok(())
            },
            Instruction::SkipNotEqualReg(p) => {
                proof {
                    lemma_pair_nibbles(p);
                }
                let skip = self.registers.read(p >> 4) != self.registers.read(p & 0xF);
                self.pc = self.pc.wrapping_add(if skip { 4 } else { 2 });
                Ok(())
            },
            Instruction::LoadI(a) => {
                let ar = self.registers.address_mut();
                *ar = a;
                self.pc = self.pc.wrapping_add(2);
                Ok(())
            },
            Instruction::JumpAddressOffset(a) => {
                let v0 = self.registers.read(0);
                self.pc = a.wrapping_add(v0 as u16);
                Ok(())
            },
            Instruction::RandRange(reg, mask) => {
                self.registers.write(reg, rnd & mask);
                self.pc = self.pc.wrapping_add(2);
                Ok(())
            },
            Instruction::Draw(p, low) => {
                proof {
                    lemma_pair_nibbles(p);
                }
                let xv = self.registers.read(p >> 4);
                let yv = self.registers.read(p & 0xF);
                let n = (low & 0xF) as u16;
                let base = self.registers.address();
                if base as u32 + n as u32 > MEMORY_SIZE as u32 {
                    return Err(StepError::OutOfBoundsSpriteRead);
                }
                let rows = self.memory.slice(base..base + n).unwrap();
                let collided = draw_sprite(display, xv as usize, yv as usize, rows);
                self.registers.write(
                    FLAGS_REGISTER,
                    if collided {
                        1
                    } else {
                        0
                    },
                );
                self.pc = self.pc.wrapping_add(2);
                Ok(())
            },
            Instruction::SkipPressed(reg) => {
                let v = self.registers.read(reg);
                let key = v & 0xF;
                proof {
                    assert(v & 0xF < 16) by (bit_vector);
                }
                let skip = (keys >> (key as u16)) & 1 == 1;
                self.pc = self.pc.wrapping_add(if skip { 4 } else { 2 });
                Ok(())
            },
            Instruction::SkipNotPressed(reg) => {
                let v = self.registers.read(reg);
                let key = v & 0xF;
                proof {
                    assert(v & 0xF < 16) by (bit_vector);
                }
                let skip = (keys >> (key as u16)) & 1 != 1;
                self.pc = self.pc.wrapping_add(if skip { 4 } else { 2 });
                Ok(())
            },
            Instruction::LoadRegisterDelayTimer(reg) => {
                let d = self.registers.delay();
                self.registers.write(reg, d);
                self.pc = self.pc.wrapping_add(2);
                Ok(())
            },
            Instruction::LoadKeyPress(reg) => {
                self.waiting = Some(reg);
                Ok(())
            },
            Instruction::LoadDelayTimerRegister(reg) => {
                let v = self.registers.read(reg);
                self.registers.set_delay(v);
                self.pc = self.pc.wrapping_add(2);
                Ok(())
            },
            Instruction::LoadSoundTimerRegister(reg) => {
                let v = self.registers.read(reg);
                self.registers.set_sound_timer(v);
                self.pc = self.pc.wrapping_add(2);
                Ok(())
            },
            Instruction::AddAddresssRegister(reg) => {
                let v = self.registers.read(reg);
                let a = self.registers.address();
                let ar = self.registers.address_mut();
                *ar = a.wrapping_add(v as u16);
                self.pc = self.pc.wrapping_add(2);
                Ok(())
            },
            Instruction::LoadSpriteAddress(reg) => {
                let digit = self.registers.read(reg) & 0xF;
                let ar = self.registers.address_mut();
                *ar = 5 * (digit as u16);
                self.pc = self.pc.wrapping_add(2);
                Ok(())
            },
        }
    }

    /// One instruction step with the random byte handed in by the caller, so
    /// that runs can be made deterministic: resume or keep waiting if
    /// suspended on the key-wait instruction, otherwise fetch the word at
    /// the program counter, decode it, execute it, and advance. Exactly
    /// [`spec_step`].
    pub fn step_with_entropy(
        &mut self,
        display: &mut Display,
        keys: u16,
        rnd: u8,
    ) -> (r: Result<(), StepError>)
        requires
            old(self).wf(),
            old(display).wf(),
        ensures
            final(self).wf(),
            final(display).wf(),
            ({
                let out = spec_step(old(self)@, old(display)@, keys, rnd);
                final(self)@ == out.state && final(display)@ == out.screen && r == out.result
            }),
    {
        match self.waiting {
            Some(reg) => {
                match first_pressed(keys) {
                    Some(k) => {
                        self.registers.write(reg, k);
                        self.waiting = None;
                        self.pc = self.pc.wrapping_add(2);
                    },
                    None => {},
                }
                return Ok(());
            },
            None => {},
        }
        if self.pc >= FETCH_LIMIT {
            return Err(StepError::OutOfBoundsFetch);
        }
        let hi = self.memory.load(self.pc).unwrap();
        let lo = self.memory.load(self.pc + 1).unwrap();
        let word = hi as u16 * 256 + lo as u16;
        let instr = decode(word);
        self.exec_instr(instr, display, keys, rnd)
    }

    /// One instruction step, drawing the random byte from the machine's own
    /// entropy source. For every byte that source could yield, the step is
    /// exactly [`spec_step`] on that byte.
    pub fn step(&mut self, display: &mut Display, keys: u16) -> (r: Result<(), StepError>)
        requires
            old(self).wf(),
            old(display).wf(),
        ensures
            final(self).wf(),
            final(display).wf(),
            exists|rnd: u8|
                #[trigger] spec_step(old(self)@, old(display)@, keys, rnd) == (StepOut {
                    state: final(self)@,
                    screen: final(display)@,
                    result: r,
                }),
    {
        let rnd = random_byte();
        let r = self.step_with_entropy(display, keys, rnd);
        proof {
            assert(spec_step(old(self)@, old(display)@, keys, rnd) == (StepOut {
                state: self@,
                screen: display@,
                result: r,
            }));
        }
        r
    }

    /// The timer clock: both countdown timers go down by one, floored at
    /// zero. Independent of instruction stepping; the host drives it at a
    /// steady cadence.
    pub fn tick(&mut self)
        requires
            old(self).wf(),
        ensures
            final(self).wf(),
            final(self)@ == (EngModel {
                regs: RegModel {
                    delay: tick1(old(self)@.regs.delay),
                    sound: tick1(old(self)@.regs.sound),
                    ..old(self)@.regs
                },
                ..old(self)@
            }),
    {
        self.registers.cycle();
    }
}

} // verus!
