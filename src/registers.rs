//! Sketch parameters and the register store abstraction.

use vstd::prelude::*;

verus! {

pub const HASH_BITS: usize = 128;

/// Index bits: the sketch has 2^P registers.
pub const P: usize = 14;

/// log2 of the run-length window.
pub const Q: usize = 6;

/// Signature bits kept in the low end of each register.
pub const R: usize = 10;

/// 2^P registers.
pub const NUM_REGISTERS: usize = 16384;

/// 2^Q: the widest run of zero bits that is counted.
pub const HLL_Q: usize = 64;

/// HASH_BITS - R: the histogram's length.
pub const HLL_BITS: usize = 118;

/// The derived sizes agree with the parameters they come from.
pub proof fn lemma_parameters()
    ensures
        NUM_REGISTERS == 1usize << P,
        HLL_Q == 1usize << Q,
        HLL_BITS == HASH_BITS - R,
{
    assert(16384usize == 1usize << 14usize) by (bit_vector);
    assert(64usize == 1usize << 6usize) by (bit_vector);
}

/// The run-length field of a packed register.
pub open spec fn run_of(v: u32) -> u32 {
    v >> 10u32
}

/// A fixed-length sequence of registers, addressed by index.
pub trait RegisterVector: Sized {
    /// The register values, index by index.
    spec fn regs(&self) -> Seq<u32>;

    /// What a register keeps of a value written to it.
    spec fn stored(v: u32) -> u32;

    /// A register never keeps more than was written.
    proof fn lemma_stored_le(v: u32)
        ensures
            Self::stored(v) <= v,
    ;

    fn register_at(&self, idx: usize) -> (r: u32)
        requires
            idx < self.regs().len(),
        ensures
            r == self.regs()[idx as int],
    ;

    fn set_register(&mut self, idx: usize, value: u32)
        requires
            idx < old(self).regs().len(),
        ensures
            final(self).regs() == old(self).regs().update(idx as int, Self::stored(value)),
    ;

    fn num_registers(&self) -> (r: usize)
        ensures
            r == self.regs().len(),
    ;
}

/// Registers held as plain 32-bit integers in memory.
pub struct ArrayRegisters {
    cells: Vec<u32>,
}

impl ArrayRegisters {
    pub fn len(&self) -> (r: usize)
        ensures
            r == self.regs().len(),
    {
        self.cells.len()
    }
}

impl RegisterVector for ArrayRegisters {
    closed spec fn regs(&self) -> Seq<u32> {
        self.cells@
    }

    open spec fn stored(v: u32) -> u32 {
        v
    }

    proof fn lemma_stored_le(v: u32) {
    }

    fn register_at(&self, idx: usize) -> (r: u32) {
        self.cells[idx]
    }

    fn set_register(&mut self, idx: usize, value: u32) {
        self.cells.set(idx, value);
    }

    fn num_registers(&self) -> (r: usize) {
        self.cells.len()
    }
}

/// A fresh in-memory register array, every register zero.
pub fn new_array_registers() -> (r: ArrayRegisters)
    ensures
        r.regs() == Seq::new(NUM_REGISTERS as nat, |i: int| 0u32),
{
    let cells = vec![0u32; NUM_REGISTERS];
    let r = ArrayRegisters { cells };
    assert(r.regs() =~= Seq::new(NUM_REGISTERS as nat, |i: int| 0u32));
    r
}

} // verus!
