//! The 4096-byte address space, with the preloaded font, the protected low
//! region, and the internal call stack.
//!
//! Layout: `[0x000, 0x050)` holds the font glyphs for the hexadecimal digits
//! 0 to F, five bytes per glyph. The call stack lives in the otherwise
//! reserved region `[0x050, 0x200)`, growing upward from `0x050` toward the
//! program region; it can therefore never alias the font or the program.
//! `[0x200, 0x1000)` is the writable program region. Ordinary stores below
//! `0x200` or at `0x1000` and above fail without mutating anything, so a
//! running program can corrupt neither the font nor the stack.

use vstd::assert_seqs_equal;
use vstd::pervasive::VecAdditionalExecFns;
use vstd::prelude::*;
use core::ops::Range;

verus! {

/// Number of bytes in the address space.
pub const MEMORY_SIZE: u16 = 0x1000;

/// First address of the writable program region.
pub const PROGRAM_START: u16 = 0x200;

/// First address past the font glyphs; the call stack starts here.
pub const STACK_BASE: u16 = 0x50;

/// The full address space and the stack pointer.
pub struct Memory {
    /// The bytes of the address space, always exactly `MEMORY_SIZE` of them.
    data: Vec<u8>,

    /// One past the last byte in use by the call stack; equals `STACK_BASE`
    /// when the stack is empty.
    stack_pointer: u16,
}

/// The mathematical model of a [`Memory`]: its bytes and its stack pointer.
pub struct MemModel {
    /// The bytes of the address space.
    pub bytes: Seq<u8>,

    /// One past the last byte in use by the call stack.
    pub sp: u16,
}

impl View for Memory {
    type V = MemModel;

    closed spec fn view(&self) -> MemModel {
        MemModel { bytes: self.data@, sp: self.stack_pointer }
    }
}

/// How many return addresses the call stack holds.
pub open spec fn stack_len(m: MemModel) -> int {
    (m.sp - STACK_BASE) / 2
}

/// The `i`-th return address on the call stack, stored big-endian as two
/// bytes at `STACK_BASE + 2 * i`.
pub open spec fn stack_entry(m: MemModel, i: int) -> u16
    recommends
        0 <= i < stack_len(m),
{
    ((m.bytes[STACK_BASE + 2 * i] as int) * 256 + (m.bytes[STACK_BASE + 2 * i + 1] as int)) as u16
}

/// The call stack as a sequence, oldest entry first.
pub open spec fn stack(m: MemModel) -> Seq<u16> {
    Seq::new(stack_len(m) as nat, |i: int| stack_entry(m, i))
}

/// Well-formedness: the address space has exactly `MEMORY_SIZE` bytes, the
/// stack pointer stays inside `[STACK_BASE, PROGRAM_START)` at an even
/// offset, and every stacked value is a valid program-region address.
pub open spec fn mem_wf(m: MemModel) -> bool {
    &&& m.bytes.len() == MEMORY_SIZE
    &&& STACK_BASE <= m.sp < PROGRAM_START
    &&& (m.sp - STACK_BASE) % 2 == 0
    &&& forall|i: int|
        0 <= i < stack_len(m) ==> PROGRAM_START <= #[trigger] stack_entry(m, i) < MEMORY_SIZE
}

/// The five rows of one font glyph.
pub open spec fn glyph5(b0: u8, b1: u8, b2: u8, b3: u8, b4: u8) -> Seq<u8> {
    seq![b0, b1, b2, b3, b4]
}

/// The preloaded font: glyphs for the digits 0 to F, five bytes each, the
/// high nibble of each byte holding the pixel row.
pub open spec fn font_bytes() -> Seq<u8> {
    glyph5(0xF0, 0x90, 0x90, 0x90, 0xF0) + glyph5(0x20, 0x60, 0x20, 0x20, 0x70)
        + glyph5(0xF0, 0x10, 0xF0, 0x80, 0xF0) + glyph5(0xF0, 0x10, 0xF0, 0x10, 0xF0)
        + glyph5(0x90, 0x90, 0xF0, 0x10, 0x10) + glyph5(0xF0, 0x80, 0xF0, 0x10, 0xF0)
        + glyph5(0xF0, 0x80, 0xF0, 0x90, 0xF0) + glyph5(0xF0, 0x10, 0x20, 0x40, 0x40)
        + glyph5(0xF0, 0x90, 0xF0, 0x90, 0xF0) + glyph5(0xF0, 0x90, 0xF0, 0x10, 0xF0)
        + glyph5(0xF0, 0x90, 0xF0, 0x90, 0x90) + glyph5(0xE0, 0x90, 0xE0, 0x90, 0xE0)
        + glyph5(0xF0, 0x80, 0x80, 0x80, 0xF0) + glyph5(0xE0, 0x90, 0x90, 0x90, 0xE0)
        + glyph5(0xF0, 0x80, 0xF0, 0x80, 0xF0) + glyph5(0xF0, 0x80, 0xF0, 0x80, 0x80)
}

/// The memory contents at start: the font, then zeroes.
pub open spec fn initial_bytes() -> Seq<u8> {
    font_bytes() + Seq::new((MEMORY_SIZE - STACK_BASE) as nat, |i: int| 0u8)
}

/// Appends the five rows of one glyph.
fn push5(data: &mut Vec<u8>, b0: u8, b1: u8, b2: u8, b3: u8, b4: u8)
    ensures
        final(data)@ == old(data)@ + glyph5(b0, b1, b2, b3, b4),
{
    data.push(b0);
    data.push(b1);
    data.push(b2);
    data.push(b3);
    data.push(b4);
    proof {
        assert_seqs_equal!(data@ == old(data)@ + glyph5(b0, b1, b2, b3, b4));
    }
}

impl Memory {
    /// Builds the memory at start: font preloaded, everything else zero,
    /// stack empty.
    pub fn new() -> (m: Memory)
        ensures
            m.wf(),
            m@.bytes == initial_bytes(),
            m@.sp == STACK_BASE,
    {
        let mut data: Vec<u8> = Vec::new();
        push5(&mut data, 0xF0, 0x90, 0x90, 0x90, 0xF0);
        push5(&mut data, 0x20, 0x60, 0x20, 0x20, 0x70);
        push5(&mut data, 0xF0, 0x10, 0xF0, 0x80, 0xF0);
        push5(&mut data, 0xF0, 0x10, 0xF0, 0x10, 0xF0);
        push5(&mut data, 0x90, 0x90, 0xF0, 0x10, 0x10);
        push5(&mut data, 0xF0, 0x80, 0xF0, 0x10, 0xF0);
        push5(&mut data, 0xF0, 0x80, 0xF0, 0x90, 0xF0);
        push5(&mut data, 0xF0, 0x10, 0x20, 0x40, 0x40);
        push5(&mut data, 0xF0, 0x90, 0xF0, 0x90, 0xF0);
        push5(&mut data, 0xF0, 0x90, 0xF0, 0x10, 0xF0);
        push5(&mut data, 0xF0, 0x90, 0xF0, 0x90, 0x90);
        push5(&mut data, 0xE0, 0x90, 0xE0, 0x90, 0xE0);
        push5(&mut data, 0xF0, 0x80, 0x80, 0x80, 0xF0);
        push5(&mut data, 0xE0, 0x90, 0x90, 0x90, 0xE0);
        push5(&mut data, 0xF0, 0x80, 0xF0, 0x80, 0xF0);
        push5(&mut data, 0xF0, 0x80, 0xF0, 0x80, 0x80);
        assert(data@ == font_bytes());
        while data.len() < 0x1000
            invariant
                80 <= data@.len() <= 0x1000,
                data@.subrange(0, 80) == font_bytes(),
                forall|i: int| 80 <= i < data@.len() ==> data@[i] == 0u8,
            decreases 0x1000 - data@.len(),
        {
            data.push(0u8);
            proof {
                assert_seqs_equal!(data@.subrange(0, 80) == font_bytes());
            }
        }
        proof {
            assert_seqs_equal!(data@ == initial_bytes(), i => {
                if i < 80 {
                    assert(data@.subrange(0, 80)[i] == data@[i]);
                }
            });
        }
        Memory { data, stack_pointer: STACK_BASE }
    }

    /// Well-formedness of the whole address space; see [`mem_wf`].
    pub open spec fn wf(&self) -> bool {
        mem_wf(self@)
    }

    /// Reads one byte. Succeeds exactly on addresses below `MEMORY_SIZE`;
    /// any region may be read, the font included.
    pub fn load(&self, index: u16) -> (r: Option<u8>)
        requires
            self.wf(),
        ensures
            index < MEMORY_SIZE ==> r == Some(self@.bytes[index as int]),
            index >= MEMORY_SIZE ==> r is None,
    {
        if index < MEMORY_SIZE {
            Some(self.data[index as usize])
        } else {
            None
        }
    }

    /// Writes one byte. Succeeds exactly on the writable program region
    /// `[PROGRAM_START, MEMORY_SIZE)`; on failure nothing is mutated, so the
    /// font and the call stack are safe from stores.
    pub fn store(&mut self, index: u16, value: u8) -> (r: bool)
        requires
            old(self).wf(),
        ensures
            final(self).wf(),
            r == (PROGRAM_START <= index < MEMORY_SIZE),
            r ==> final(self)@.bytes == old(self)@.bytes.update(index as int, value)
                && final(self)@.sp == old(self)@.sp,
            !r ==> final(self)@ == old(self)@,
            stack(final(self)@) == stack(old(self)@),
    {
        if PROGRAM_START <= index && index < MEMORY_SIZE {
            self.data.set(index as usize, value);
            proof {
                assert forall|i: int| 0 <= i < stack_len(self@) implies #[trigger] stack_entry(
                    self@,
                    i,
                ) == stack_entry(old(self)@, i) by {
                    assert(STACK_BASE + 2 * i + 1 < PROGRAM_START);
                }
                assert_seqs_equal!(stack(self@) == stack(old(self)@));
            }
            true
        } else {
            false
        }
    }

    /// Pushes a return address onto the call stack. Succeeds exactly when
    /// the address lies in the program region and the stack has room left
    /// before the program region would begin; on failure nothing is mutated,
    /// so the entries already stacked stay intact.
    pub fn push(&mut self, address: u16) -> (r: bool)
        requires
            old(self).wf(),
        ensures
            final(self).wf(),
            r == (PROGRAM_START <= address < MEMORY_SIZE && old(self)@.sp + 2 < PROGRAM_START),
            r ==> final(self)@.sp == old(self)@.sp + 2
                && final(self)@.bytes == old(self)@.bytes.update(
                old(self)@.sp as int,
                (address >> 8) as u8,
            ).update(old(self)@.sp as int + 1, (address & 0xFF) as u8)
                && stack(final(self)@) == stack(old(self)@).push(address),
            !r ==> final(self)@ == old(self)@,
    {
        if address < PROGRAM_START || address >= MEMORY_SIZE || self.stack_pointer + 2
            >= PROGRAM_START {
            return false;
        }
        let sp = self.stack_pointer as usize;
        let hi = (address >> 8) as u8;
        let lo = (address & 0xFF) as u8;
        self.data.set(sp, hi);
        self.data.set(sp + 1, lo);
        self.stack_pointer = self.stack_pointer + 2;
        proof {
            let m0 = old(self)@;
            let m1 = self@;
            assert((((address >> 8) as u8) as int) * 256 + (((address & 0xFF) as u8) as int)
                == address as int) by (bit_vector);
            assert(stack_entry(m1, stack_len(m0)) == address);
            assert forall|i: int| 0 <= i < stack_len(m0) implies #[trigger] stack_entry(m1, i)
                == stack_entry(m0, i) by {
                assert(STACK_BASE + 2 * i + 1 < m0.sp);
            }
            assert_seqs_equal!(stack(m1) == stack(m0).push(address));
        }
        true
    }

    /// Pops the most recent return address. Returns `None`, mutating
    /// nothing, exactly when the stack is empty.
    pub fn pop(&mut self) -> (r: Option<u16>)
        requires
            old(self).wf(),
        ensures
            final(self).wf(),
            old(self)@.sp == STACK_BASE ==> r is None && final(self)@ == old(self)@,
            old(self)@.sp > STACK_BASE ==> r == Some(stack(old(self)@).last())
                && PROGRAM_START <= stack(old(self)@).last() < MEMORY_SIZE
                && final(self)@.sp == old(self)@.sp - 2
                && final(self)@.bytes == old(self)@.bytes
                && stack(final(self)@) == stack(old(self)@).drop_last(),
    {
        if self.stack_pointer <= STACK_BASE {
            return None;
        }
        self.stack_pointer = self.stack_pointer - 2;
        let sp = self.stack_pointer as usize;
        let hi = self.data[sp];
        let lo = self.data[sp + 1];
        let address = (hi as u16) * 256 + (lo as u16);
        proof {
            let m0 = old(self)@;
            assert(stack_len(m0) >= 1) by {
                assert((m0.sp - STACK_BASE) % 2 == 0 && m0.sp > STACK_BASE);
            }
            assert(address == stack_entry(m0, stack_len(m0) - 1));
            assert(stack(m0).last() == stack_entry(m0, stack_len(m0) - 1));
            assert forall|i: int| 0 <= i < stack_len(self@) implies PROGRAM_START <= #[trigger] stack_entry(
                self@,
                i,
            ) < MEMORY_SIZE by {
                assert(stack_entry(self@, i) == stack_entry(m0, i));
            }
            assert_seqs_equal!(stack(self@) == stack(m0).drop_last());
        }
        Some(address)
    }

    /// Borrows a contiguous run of memory for bulk reads such as sprite
    /// rows. Succeeds exactly when the range is ordered and stays inside the
    /// address space.
    pub fn slice(&self, range: Range<u16>) -> (r: Option<&[u8]>)
        requires
            self.wf(),
        ensures
            (range.start <= range.end && range.end <= MEMORY_SIZE) <==> r is Some,
            r matches Some(s) ==> s@ == self@.bytes.subrange(range.start as int, range.end as int),
    {
        if range.start <= range.end && range.end <= MEMORY_SIZE {
            Some(
                vstd::slice::slice_subrange(
                    self.data.as_slice(),
                    range.start as usize,
                    range.end as usize,
                ),
            )
        } else {
            None
        }
    }

    /// The checked bulk write over the program region, used to load a
    /// program's bytes before the first step. Succeeds exactly when the
    /// range is ordered, lies inside `[PROGRAM_START, MEMORY_SIZE]`, and the
    /// given bytes fill it exactly; on failure nothing is mutated.
    pub fn slice_mut(&mut self, range: Range<u16>, bytes: &[u8]) -> (r: bool)
        requires
            old(self).wf(),
        ensures
            final(self).wf(),
            r == (PROGRAM_START <= range.start <= range.end <= MEMORY_SIZE && bytes@.len()
                == range.end - range.start),
            r ==> final(self)@.sp == old(self)@.sp && final(self)@.bytes.len() == MEMORY_SIZE
                && forall|i: int|
                0 <= i < MEMORY_SIZE ==> final(self)@.bytes[i] == (if range.start <= i
                    < range.end {
                    bytes@[i - range.start]
                } else {
                    old(self)@.bytes[i]
                }),
            !r ==> final(self)@ == old(self)@,
            stack(final(self)@) == stack(old(self)@),
    {
        if !(PROGRAM_START <= range.start && range.start <= range.end && range.end <= MEMORY_SIZE)
            || bytes.len() != (range.end - range.start) as usize {
            proof {
                assert_seqs_equal!(stack(self@) == stack(old(self)@));
            }
            return false;
        }
        let start = range.start as usize;
        let count = bytes.len();
        let mut j: usize = 0;
        while j < count
            invariant
                count == bytes@.len(),
                0 <= j <= count,
                0x200 <= start,
                start + count <= 0x1000,
                self@.bytes.len() == MEMORY_SIZE,
                self@.sp == old(self)@.sp,
                forall|i: int|
                    0 <= i < MEMORY_SIZE ==> self@.bytes[i] == (if start <= i < start + j {
                        bytes@[i - start]
                    } else {
                        old(self)@.bytes[i]
                    }),
            decreases count - j,
        {
            self.data.set(start + j, bytes[j]);
            j = j + 1;
        }
        proof {
            let m0 = old(self)@;
            let m1 = self@;
            assert forall|i: int| 0 <= i < stack_len(m1) implies #[trigger] stack_entry(m1, i)
                == stack_entry(m0, i) by {
                assert(STACK_BASE + 2 * i + 1 < PROGRAM_START);
            }
            assert_seqs_equal!(stack(m1) == stack(m0));
        }
        true
    }
}

impl Default for Memory {
    /// Same as [`Memory::new`].
    fn default() -> (m: Memory)
        ensures
            m.wf(),
            m@.bytes == initial_bytes(),
            m@.sp == STACK_BASE,
    {
        Memory::new()
    }
}

} // verus!
