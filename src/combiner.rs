//! Folding several sketches together to estimate their similarity and the
//! size of their intersection.

use vstd::prelude::*;
use crate::registers::{new_array_registers, ArrayRegisters, RegisterVector, HLL_BITS, NUM_REGISTERS};
use crate::sketch::{
    empty_regs, histogram_of, merge_all, merge_into, merge_regs, run_count, valid_registers,
    HyperMinHash,
};

verus! {

/// Index by index: a register survives while it is zero or equal to the
/// incoming sketch's register, and is cleared at the first mismatch.
pub open spec fn intersect_step(prev: Seq<u32>, s: Seq<u32>) -> Seq<u32> {
    Seq::new(prev.len(), |i: int| if prev[i] != 0 && prev[i] != s[i] { 0 } else { prev[i] })
}

/// The intersection registers after folding the sketches `rs` in order.
pub open spec fn intersect_all(rs: Seq<Seq<u32>>) -> Seq<u32>
    decreases rs.len(),
{
    if rs.len() == 0 {
        empty_regs()
    } else if rs.len() == 1 {
        rs[0]
    } else {
        intersect_step(intersect_all(rs.drop_last()), rs.last())
    }
}

/// How many of the first `n` registers are nonzero.
pub open spec fn count_nonzero(s: Seq<u32>, n: int) -> nat
    decreases n,
{
    if n <= 0 {
        0
    } else {
        count_nonzero(s, n - 1) + if s[n - 1] != 0 {
            1nat
        } else {
            0nat
        }
    }
}

/// `h` is the run-length histogram of the registers `regs`.
pub open spec fn is_histogram_of(h: Seq<u32>, regs: Seq<u32>) -> bool {
    &&& h.len() == HLL_BITS
    &&& forall|k: int| 0 <= k < HLL_BITS ==> #[trigger] h[k] == run_count(regs, k, NUM_REGISTERS as int)
}

/// What the similarity estimate is computed from.
#[derive(Debug, PartialEq, Eq, Structural)]
pub enum SimilarityTerms {
    /// No sketch was folded.
    Empty,
    /// One sketch was folded: it is identical to itself.
    Single,
    /// No register is shared by all folded sketches.
    Disjoint,
    /// Two sketches: the ratio is corrected for chance collisions.
    Pair { matching: u64, occupied: u64 },
    /// Three or more sketches: the plain ratio, without correction.
    Multi { matching: u64, occupied: u64 },
}

/// Accumulates sketches: their union, the registers that all of them share,
/// and each one's run-length histogram.
pub struct MinHashCombiner {
    union: HyperMinHash<ArrayRegisters>,
    reg_intersection: ArrayRegisters,
    histograms: Vec<Vec<u32>>,
    folded: Ghost<Seq<Seq<u32>>>,
}

impl MinHashCombiner {
    /// The registers of the sketches folded so far, in order.
    pub closed spec fn folded(&self) -> Seq<Seq<u32>> {
        self.folded@
    }

    pub closed spec fn union_regs(&self) -> Seq<u32> {
        self.union@
    }

    pub closed spec fn intersection_regs(&self) -> Seq<u32> {
        self.reg_intersection.regs()
    }

    pub closed spec fn histogram_at(&self, k: int) -> Seq<u32> {
        self.histograms@[k]@
    }

    pub closed spec fn wf(&self) -> bool {
        &&& self.union@.len() == NUM_REGISTERS
        &&& valid_registers(self.union@)
        &&& self.reg_intersection.regs().len() == NUM_REGISTERS
        &&& self.histograms@.len() == self.folded@.len()
        &&& forall|k: int| 0 <= k < self.folded@.len() ==> (#[trigger] self.folded@[k]).len() == NUM_REGISTERS
        &&& self.union@ == merge_all(self.folded@)
        &&& self.reg_intersection.regs() == intersect_all(self.folded@)
        &&& forall|k: int| 0 <= k < self.folded@.len() ==> is_histogram_of(#[trigger] self.histograms@[k]@, self.folded@[k])
    }

    pub fn new() -> (c: Self)
        ensures
            c.wf(),
            c.folded() == Seq::<Seq<u32>>::empty(),
    {
        let c = MinHashCombiner {
            union: HyperMinHash::wrap(new_array_registers()),
            reg_intersection: new_array_registers(),
            histograms: Vec::new(),
            folded: Ghost(Seq::empty()),
        };
        assert(c.union@ =~= merge_all(c.folded@));
        assert forall|i: int| 0 <= i < NUM_REGISTERS implies crate::registers::run_of(#[trigger] c.union@[i]) <= 65 by {
            assert(0u32 >> 10u32 == 0) by (bit_vector);
        }
        assert(c.reg_intersection.regs() =~= intersect_all(c.folded@));
        c
    }

    /// Folds one more sketch in.
    pub fn combine<T: RegisterVector>(&mut self, sketch: &HyperMinHash<T>)
        requires
            old(self).wf(),
            sketch.wf(),
            valid_registers(sketch@),
        ensures
            final(self).wf(),
            final(self).folded() == old(self).folded().push(sketch@),
            final(self).union_regs() == merge_regs(old(self).union_regs(), sketch@),
            final(self).intersection_regs() == if old(self).folded().len() == 0 {
                sketch@
            } else {
                intersect_step(old(self).intersection_regs(), sketch@)
            },
            is_histogram_of(final(self).histogram_at(old(self).folded().len() as int), sketch@),
    {
        let ghost old_folded = self.folded@;
        let ghost old_inter = self.reg_intersection.regs();
        let num_sketch = self.histograms.len();
        merge_into(&mut self.union.registers, &sketch.registers);
        proof {
            assert forall|i: int| 0 <= i < NUM_REGISTERS implies crate::registers::run_of(#[trigger] self.union@[i]) <= 65 by {
                assert(valid_registers(sketch@));
            }
        }
        let ghost union_after = self.union@;
        let mut i: usize = 0;
        while i < NUM_REGISTERS
            invariant
                i <= NUM_REGISTERS,
                self.union@ == union_after,
                self.histograms@ == old(self).histograms@,
                sketch@.len() == NUM_REGISTERS,
                old_inter.len() == NUM_REGISTERS,
                self.reg_intersection.regs().len() == NUM_REGISTERS,
                forall|j: int|
                    0 <= j < i ==> #[trigger] self.reg_intersection.regs()[j] == if num_sketch == 0 {
                        sketch@[j]
                    } else if old_inter[j] != 0 && old_inter[j] != sketch@[j] {
                        0
                    } else {
                        old_inter[j]
                    },
                forall|j: int| i <= j < NUM_REGISTERS ==> #[trigger] self.reg_intersection.regs()[j] == old_inter[j],
            decreases NUM_REGISTERS - i,
        {
            let reg = sketch.registers.register_at(i);
            if num_sketch < 1 {
                self.reg_intersection.set_register(i, reg);
            } else {
                let cur = self.reg_intersection.register_at(i);
                if cur != 0 && cur != reg {
                    self.reg_intersection.set_register(i, 0);
                }
            }
            i = i + 1;
        }
        let h = histogram_of(&sketch.registers);
        self.histograms.push(h);
        self.folded = Ghost(old_folded.push(sketch@));
        proof {
            let f = self.folded@;
            assert(f.drop_last() =~= old_folded);
            assert(self.union@ =~= merge_regs(old(self).union@, sketch@));
            assert(self.union@ == merge_all(f));
            assert(valid_registers(self.union@));
            assert(forall|k: int| 0 <= k < f.len() ==> (#[trigger] f[k]).len() == NUM_REGISTERS);
            if num_sketch == 0 {
                assert(self.reg_intersection.regs() =~= sketch@);
            } else {
                assert(self.reg_intersection.regs() =~= intersect_step(old_inter, sketch@));
            }
            assert forall|k: int| 0 <= k < f.len() implies is_histogram_of(#[trigger] self.histograms@[k]@, f[k]) by {
                if k < num_sketch {
                    assert(self.histograms@[k] == old(self).histograms@[k]);
                }
            }
        }
    }

    /// How many sketches were folded.
    pub fn num_sketches(&self) -> (n: usize)
        requires
            self.wf(),
        ensures
            n == self.folded().len(),
    {
        self.histograms.len()
    }

    /// The run-length histogram of the `k`-th folded sketch.
    pub fn sketch_histogram(&self, k: usize) -> (h: &Vec<u32>)
        requires
            self.wf(),
            k < self.folded().len(),
        ensures
            h@ == self.histogram_at(k as int),
            is_histogram_of(h@, self.folded()[k as int]),
    {
        &self.histograms[k]
    }

    /// The run-length histogram of the union of all folded sketches.
    pub fn union_histogram(&self) -> (h: Vec<u32>)
        requires
            self.wf(),
        ensures
            is_histogram_of(h@, merge_all(self.folded())),
    {
        self.union.histogram()
    }

    /// Registers shared by every folded sketch, and registers set in any.
    pub fn similarity_terms(&self) -> (t: SimilarityTerms)
        requires
            self.wf(),
        ensures
            t == if self.folded().len() == 0 {
                SimilarityTerms::Empty
            } else if self.folded().len() == 1 {
                SimilarityTerms::Single
            } else if count_nonzero(self.intersection_regs(), NUM_REGISTERS as int) == 0 {
                SimilarityTerms::Disjoint
            } else if self.folded().len() == 2 {
                SimilarityTerms::Pair {
                    matching: count_nonzero(self.intersection_regs(), NUM_REGISTERS as int) as u64,
                    occupied: count_nonzero(self.union_regs(), NUM_REGISTERS as int) as u64,
                }
            } else {
                SimilarityTerms::Multi {
                    matching: count_nonzero(self.intersection_regs(), NUM_REGISTERS as int) as u64,
                    occupied: count_nonzero(self.union_regs(), NUM_REGISTERS as int) as u64,
                }
            },
    {
        let n = self.histograms.len();
        if n == 0 {
            return SimilarityTerms::Empty;
        }
        if n == 1 {
            return SimilarityTerms::Single;
        }
        let matching = count_set(&self.reg_intersection);
        let occupied = count_set(&self.union.registers);
        if matching == 0 {
            SimilarityTerms::Disjoint
        } else if n == 2 {
            SimilarityTerms::Pair { matching, occupied }
        } else {
            SimilarityTerms::Multi { matching, occupied }
        }
    }
}

/// How many registers are nonzero.
fn count_set<T: RegisterVector>(regs: &T) -> (c: u64)
    requires
        regs.regs().len() == NUM_REGISTERS,
    ensures
        c == count_nonzero(regs.regs(), NUM_REGISTERS as int),
{
    let mut c: u64 = 0;
    let mut i: usize = 0;
    while i < NUM_REGISTERS
        invariant
            i <= NUM_REGISTERS,
            regs.regs().len() == NUM_REGISTERS,
            c == count_nonzero(regs.regs(), i as int),
            c <= i,
        decreases NUM_REGISTERS - i,
    {
        if regs.register_at(i) != 0 {
            c = c + 1;
        }
        i = i + 1;
    }
    c
}

/// A nonzero intersection register holds the very value that every folded
/// sketch has at that index.
pub proof fn lemma_intersection_agrees(rs: Seq<Seq<u32>>, k: int, i: int)
    requires
        forall|j: int| 0 <= j < rs.len() ==> (#[trigger] rs[j]).len() == NUM_REGISTERS,
        0 <= k < rs.len(),
        0 <= i < NUM_REGISTERS,
        intersect_all(rs)[i] != 0,
    ensures
        rs[k][i] == intersect_all(rs)[i],
    decreases rs.len(),
{
    if rs.len() > 1 {
        let prev = rs.drop_last();
        lemma_intersect_len(prev);
        if k < rs.len() - 1 {
            lemma_intersection_agrees(prev, k, i);
        }
    }
}

proof fn lemma_intersect_len(rs: Seq<Seq<u32>>)
    requires
        forall|j: int| 0 <= j < rs.len() ==> (#[trigger] rs[j]).len() == NUM_REGISTERS,
    ensures
        intersect_all(rs).len() == NUM_REGISTERS,
    decreases rs.len(),
{
    if rs.len() > 1 {
        lemma_intersect_len(rs.drop_last());
    }
}

} // verus!
