//! The emulated CPU's registers, as far as the traps touch them.
//!
//! The caller copies the registers out of the emulator, lets the traps work
//! on the copy, and copies them back.  Writing the program counter empties
//! the CPU's pipeline; [`ARMCoreMutRef::set_pc`] says where to refill it
//! from.

use vstd::prelude::*;

verus! {

/// Number of general-purpose registers.
pub const GPR_COUNT: usize = 16;

/// Number of the register that holds the program counter.
pub const ARM_PC: usize = 15;

/// Width in bytes of a Thumb instruction.
pub const WORD_SIZE_THUMB: u32 = 2;

/// Read access to the CPU's registers.
#[derive(Clone, Copy, Debug)]
pub struct ARMCoreRef {
    gprs: [i32; 16],
}

/// Write access to the CPU's registers.
#[derive(Debug)]
pub struct ARMCoreMutRef {
    gprs: [i32; 16],
}

/// Where the pipeline is refilled from after a write to the program counter.
#[derive(Clone, Copy, Debug)]
pub struct Prefetch {
    /// The address whose memory region becomes the active one.
    pub region: u32,
    /// The addresses of the two instructions to load, before the active
    /// region's mask is applied.
    pub addresses: [u32; 2],
}

/// An address with its lowest bit cleared: where a Thumb instruction can
/// start.
pub open spec fn thumb_aligned(v: u32) -> u32 {
    v & 0xffff_fffe
}

/// The address one Thumb instruction after `pc`, as the 32-bit program
/// counter counts.
pub open spec fn next_thumb(pc: u32) -> u32 {
    if pc <= u32::MAX - 2 {
        (pc + 2) as u32
    } else {
        (pc + 2 - 0x1_0000_0000) as u32
    }
}

/// The registers after the program counter has been set to `v`: register 15
/// runs one instruction ahead of the aligned address, the others stay.
pub open spec fn gprs_after_set_pc(gprs: Seq<i32>, v: u32) -> Seq<i32> {
    gprs.update(15, next_thumb(thumb_aligned(v)) as i32)
}

/// What is loaded into the pipeline after the program counter has been set
/// to `v`.
pub open spec fn prefetch_after_set_pc(v: u32) -> Prefetch {
    Prefetch {
        region: thumb_aligned(v),
        addresses: [thumb_aligned(v), next_thumb(thumb_aligned(v))],
    }
}

impl ARMCoreRef {
    /// The sixteen registers, register 0 first.
    pub closed spec fn registers(&self) -> Seq<i32> {
        self.gprs@
    }

    /// The value of register `r`.
    pub fn gpr(&self, r: usize) -> (v: i32)
        requires
            r < 16,
        ensures
            v == self.registers()[r as int],
    {
        self.gprs[r]
    }
}

impl ARMCoreMutRef {
    /// The sixteen registers, register 0 first.
    pub closed spec fn registers(&self) -> Seq<i32> {
        self.gprs@
    }

    /// Write access to a copy of the registers.
    pub fn new(gprs: [i32; 16]) -> (core: Self)
        ensures
            core.registers() == gprs@,
    {
        ARMCoreMutRef { gprs }
    }

    /// The registers, to copy back.
    pub fn gprs(&self) -> (gprs: [i32; 16])
        ensures
            gprs@ == self.registers(),
    {
        self.gprs
    }

    /// Read access to the same registers.
    pub fn as_ref(&self) -> (core: ARMCoreRef)
        ensures
            core.registers() == self.registers(),
    {
        ARMCoreRef { gprs: self.gprs }
    }

    /// Sets register `r` to `v`.
    pub fn set_gpr(&mut self, r: usize, v: i32)
        requires
            r < 16,
        ensures
            final(self).registers() == old(self).registers().update(r as int, v),
    {
        self.gprs[r] = v;
    }

    /// Continues at `v` in Thumb mode, and returns where the pipeline is
    /// refilled from.
    pub fn set_pc(&mut self, v: u32) -> (prefetch: Prefetch)
        ensures
            final(self).registers() == gprs_after_set_pc(old(self).registers(), v),
            prefetch == prefetch_after_set_pc(v),
    {
        self.set_gpr(ARM_PC, v as i32);
        let prefetch = self.thumb_write_pc();
        assert(thumb_aligned(((v as i32) & -2i32) as u32) == thumb_aligned(v)) by (bit_vector);
        assert(((v as i32) & -2i32) as u32 == thumb_aligned(v)) by (bit_vector);
        assert(self.registers() =~= gprs_after_set_pc(old(self).registers(), v));
        prefetch
    }

    /// Aligns the program counter, moves it one instruction ahead and
    /// returns where the pipeline is refilled from.
    fn thumb_write_pc(&mut self) -> (prefetch: Prefetch)
        ensures
            ({
                let pc = (old(self).registers()[15] & -2i32) as u32;
                &&& final(self).registers() == old(self).registers().update(
                    15,
                    next_thumb(pc) as i32,
                )
                &&& prefetch == (Prefetch { region: pc, addresses: [pc, next_thumb(pc)] })
            }),
    {
        let pc = (self.as_ref().gpr(ARM_PC) & -(WORD_SIZE_THUMB as i32)) as u32;
        let next = if pc <= u32::MAX - WORD_SIZE_THUMB {
            pc + WORD_SIZE_THUMB
        } else {
            pc - (u32::MAX - 1)
        };
        self.set_gpr(ARM_PC, next as i32);
        Prefetch { region: pc, addresses: [pc, next] }
    }
}

} // verus!
