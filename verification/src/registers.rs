//! The register file: 16 general 8-bit registers (register 15 doubles as
//! the flags register), the 16-bit address register, and the two countdown
//! timers.

use vstd::assert_seqs_equal;
use vstd::pervasive::VecAdditionalExecFns;
use vstd::prelude::*;
use core::ops::Range;

verus! {

/// How many general registers there are.
pub const REGISTER_COUNT: u8 = 16;

/// The index of the flags register.
pub const FLAGS_REGISTER: u8 = 15;

/// The register file.
pub struct Registers {
    /// The general registers, always exactly `REGISTER_COUNT` of them.
    data: Vec<u8>,

    /// The address register, called I.
    address: u16,

    /// The delay timer.
    delay: u8,

    /// The sound timer.
    sound: u8,
}

/// The mathematical model of a [`Registers`].
pub struct RegModel {
    /// The general registers.
    pub regs: Seq<u8>,

    /// The address register.
    pub address: u16,

    /// The delay timer.
    pub delay: u8,

    /// The sound timer.
    pub sound: u8,
}

impl View for Registers {
    type V = RegModel;

    closed spec fn view(&self) -> RegModel {
        RegModel { regs: self.data@, address: self.address, delay: self.delay, sound: self.sound }
    }
}

/// One tick of one timer: down by one, floored at zero.
pub open spec fn tick1(t: u8) -> u8 {
    if t > 0 {
        (t - 1) as u8
    } else {
        0
    }
}

/// `n` ticks of one timer.
pub open spec fn tick_n(t: u8, n: nat) -> u8
    decreases n,
{
    if n == 0 {
        t
    } else {
        tick1(tick_n(t, (n - 1) as nat))
    }
}

/// A timer already at zero stays at zero, however often it is ticked.
pub proof fn lemma_tick_at_zero(n: nat)
    ensures
        tick_n(0, n) == 0,
    decreases n,
{
    if n > 0 {
        lemma_tick_at_zero((n - 1) as nat);
    }
}

impl Registers {
    /// Well-formedness: exactly `REGISTER_COUNT` general registers.
    pub open spec fn wf(&self) -> bool {
        self@.regs.len() == REGISTER_COUNT
    }

    /// Builds the register file at start: every register and both timers
    /// zero.
    pub fn new() -> (r: Registers)
        ensures
            r.wf(),
            r@.regs == Seq::new(REGISTER_COUNT as nat, |i: int| 0u8),
            r@.address == 0,
            r@.delay == 0,
            r@.sound == 0,
    {
        let mut data: Vec<u8> = Vec::new();
        let mut i: usize = 0;
        while i < 16
            invariant
                i <= 16,
                data@.len() == i,
                forall|j: int| 0 <= j < i ==> data@[j] == 0u8,
            decreases 16 - i,
        {
            data.push(0u8);
            i = i + 1;
        }
        proof {
            assert_seqs_equal!(data@ == Seq::new(REGISTER_COUNT as nat, |i: int| 0u8));
        }
        Registers { data, address: 0, delay: 0, sound: 0 }
    }

    /// Reads a general register. Succeeds exactly on ids below
    /// `REGISTER_COUNT`.
    pub fn get_value(&self, id: u8) -> (r: Option<u8>)
        requires
            self.wf(),
        ensures
            id < REGISTER_COUNT ==> r == Some(self@.regs[id as int]),
            id >= REGISTER_COUNT ==> r is None,
    {
        if id < REGISTER_COUNT {
            Some(self.data[id as usize])
        } else {
            None
        }
    }

    /// Borrows a general register mutably. Succeeds exactly on ids below
    /// `REGISTER_COUNT`; on failure nothing is mutated.
    pub fn get_value_mut(&mut self, id: u8) -> (r: Option<&mut u8>)
        requires
            old(self).wf(),
        ensures
            final(self).wf(),
            id >= REGISTER_COUNT ==> r is None && final(self)@ == old(self)@,
            id < REGISTER_COUNT ==> (r matches Some(p) && *p == old(self)@.regs[id as int]
                && final(self)@ == (RegModel {
                regs: old(self)@.regs.update(id as int, *final(p)),
                ..old(self)@
            })),
    {
        if id < REGISTER_COUNT {
            Some(&mut self.data[id as usize])
        } else {
            None
        }
    }

    /// Reads one general register without the option; internal to the crate,
    /// for callers that have already checked the id.
    pub(crate) fn read(&self, id: u8) -> (r: u8)
        requires
            self.wf(),
            id < REGISTER_COUNT,
        ensures
            r == self@.regs[id as int],
    {
        self.data[id as usize]
    }

    /// Writes one general register; internal to the crate, for callers that
    /// have already checked the id.
    pub(crate) fn write(&mut self, id: u8, value: u8)
        requires
            old(self).wf(),
            id < REGISTER_COUNT,
        ensures
            final(self).wf(),
            final(self)@ == (RegModel {
                regs: old(self)@.regs.update(id as int, value),
                ..old(self)@
            }),
    {
        self.data.set(id as usize, value);
    }

    /// The value of the address register.
    pub fn address(&self) -> (r: u16)
        ensures
            r == self@.address,
    {
        self.address
    }

    /// Borrows the address register mutably.
    pub fn address_mut(&mut self) -> (r: &mut u16)
        ensures
            *r == old(self)@.address,
            final(self)@ == (RegModel { address: *final(r), ..old(self)@ }),
    {
        &mut self.address
    }

    /// The value of the delay timer.
    pub fn delay(&self) -> (r: u8)
        ensures
            r == self@.delay,
    {
        self.delay
    }

    /// Sets the delay timer.
    pub fn set_delay(&mut self, value: u8)
        ensures
            final(self)@ == (RegModel { delay: value, ..old(self)@ }),
    {
        self.delay = value;
    }

    /// The value of the sound timer.
    pub fn sound_timer(&self) -> (r: u8)
        ensures
            r == self@.sound,
    {
        self.sound
    }

    /// Sets the sound timer.
    pub fn set_sound_timer(&mut self, value: u8)
        ensures
            final(self)@ == (RegModel { sound: value, ..old(self)@ }),
    {
        self.sound = value;
    }

    /// One timer tick: each timer goes down by one, floored at zero. Driven
    /// by the host at a steady cadence, independent of instruction stepping.
    pub fn cycle(&mut self)
        ensures
            final(self)@ == (RegModel {
                delay: tick1(old(self)@.delay),
                sound: tick1(old(self)@.sound),
                ..old(self)@
            }),
    {
        if self.delay > 0 {
            self.delay = self.delay - 1;
        }
        if self.sound > 0 {
            self.sound = self.sound - 1;
        }
    }

    /// Borrows a contiguous run of general registers for bulk reads.
    /// Succeeds exactly when the range is ordered and stays inside the
    /// register file.
    pub fn slice(&self, range: Range<u16>) -> (r: Option<&[u8]>)
        requires
            self.wf(),
        ensures
            (range.start <= range.end && range.end <= REGISTER_COUNT) <==> r is Some,
            r matches Some(s) ==> s@ == self@.regs.subrange(range.start as int, range.end as int),
    {
        if range.start <= range.end && range.end <= REGISTER_COUNT as u16 {
            Some(
                vstd::slice::slice_subrange(
                    self.data.as_slice(),
                    range.start as usize,
                    range.end as usize,
                ),
            )
        } else {
            None
        }
    }

    /// The checked bulk write over a run of general registers. Succeeds
    /// exactly when the range is ordered, stays inside the register file,
    /// and the given bytes fill it exactly; on failure nothing is mutated.
    pub fn slice_mut(&mut self, range: Range<u16>, bytes: &[u8]) -> (r: bool)
        requires
            old(self).wf(),
        ensures
            final(self).wf(),
            r == (range.start <= range.end && range.end <= REGISTER_COUNT && bytes@.len()
                == range.end - range.start),
            r ==> final(self)@ == (RegModel {
                regs: Seq::new(
                    REGISTER_COUNT as nat,
                    |i: int|
                        if range.start <= i < range.end {
                            bytes@[i - range.start]
                        } else {
                            old(self)@.regs[i]
                        },
                ),
                ..old(self)@
            }),
            !r ==> final(self)@ == old(self)@,
    {
        if !(range.start <= range.end && range.end <= REGISTER_COUNT as u16) || bytes.len() != (
        range.end - range.start) as usize {
            return false;
        }
        let start = range.start as usize;
        let count = bytes.len();
        let mut j: usize = 0;
        while j < count
            invariant
                count == bytes@.len(),
                0 <= j <= count,
                start + count <= 16,
                self@.regs.len() == REGISTER_COUNT,
                self@.address == old(self)@.address,
                self@.delay == old(self)@.delay,
                self@.sound == old(self)@.sound,
                forall|i: int|
                    0 <= i < 16 ==> self@.regs[i] == (if start <= i < start + j {
                        bytes@[i - start]
                    } else {
                        old(self)@.regs[i]
                    }),
            decreases count - j,
        {
            self.data.set(start + j, bytes[j]);
            j = j + 1;
        }
        proof {
            assert_seqs_equal!(self@.regs == Seq::new(
                REGISTER_COUNT as nat,
                |i: int|
                    if range.start <= i < range.end {
                        bytes@[i - range.start]
                    } else {
                        old(self)@.regs[i]
                    },
            ));
        }
        true
    }
}

} // verus!
