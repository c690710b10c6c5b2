//! The HyperMinHash sketch: element insertion, merging and the run-length
//! histogram that the cardinality estimator reads.

use vstd::prelude::*;
use crate::hash::{murmur3_spec, murmur3_x64_128};
use crate::registers::{
    run_of, ArrayRegisters, RegisterVector, HASH_BITS, HLL_BITS, HLL_Q, NUM_REGISTERS, P, R,
};

verus! {

pub const HASH_SEED: u64 = 0x1fb03e03;

/// Where a hash lands: its register and the run length it carries.
#[derive(Debug, PartialEq, Eq, Structural)]
pub struct PatLen {
    pub register: usize,
    pub len: u32,
}

/// The register a hash addresses: its top P bits.
pub open spec fn register_of(h: u128) -> usize {
    (h >> 114u128) as usize
}

/// Position (counting from `i`) of the first set bit among hash bits 113 down
/// to 50, where position `j` is bit `114 - j`; 65 when none of them is set.
pub open spec fn run_from(h: u128, i: nat) -> u32
    decreases 65 - i,
{
    if i >= 65 {
        65
    } else if h & (1u128 << (114 - i) as u128) != 0 {
        i as u32
    } else {
        run_from(h, i + 1)
    }
}

/// The run length of a hash.
pub open spec fn run_length(h: u128) -> u32 {
    run_from(h, 1)
}

/// Run length in the high bits, the low R bits of the hash below them.
pub open spec fn packed_value(h: u128) -> u32 {
    ((h & 1023u128) as u32) | (run_length(h) << 10u32)
}

pub open spec fn hash_of(e: Seq<u8>) -> u128 {
    murmur3_spec(e, HASH_SEED)
}

pub open spec fn slot_of(e: Seq<u8>) -> int {
    register_of(hash_of(e)) as int
}

pub open spec fn packed_of(e: Seq<u8>) -> u32 {
    packed_value(hash_of(e))
}

/// Whether inserting `e` raises a register of `regs`.
pub open spec fn would_change(regs: Seq<u32>, e: Seq<u8>) -> bool {
    packed_of(e) > regs[slot_of(e)]
}

/// The registers after inserting `e`.
pub open spec fn insert(regs: Seq<u32>, e: Seq<u8>) -> Seq<u32> {
    if would_change(regs, e) {
        regs.update(slot_of(e), packed_of(e))
    } else {
        regs
    }
}

/// The registers after inserting each of `es` in turn.
pub open spec fn insert_all(regs: Seq<u32>, es: Seq<Seq<u8>>) -> Seq<u32>
    decreases es.len(),
{
    if es.len() == 0 {
        regs
    } else {
        insert(insert_all(regs, es.drop_last()), es.last())
    }
}

/// The registers of a fresh sketch.
pub open spec fn empty_regs() -> Seq<u32> {
    Seq::new(NUM_REGISTERS as nat, |i: int| 0u32)
}

/// Index by index, the larger of two register values.
pub open spec fn merge_regs(a: Seq<u32>, b: Seq<u32>) -> Seq<u32> {
    Seq::new(a.len(), |i: int| if b[i] > a[i] { b[i] } else { a[i] })
}

/// Every register's run length is one that an insertion can produce.
pub open spec fn valid_registers(regs: Seq<u32>) -> bool {
    forall|i: int| 0 <= i < regs.len() ==> run_of(#[trigger] regs[i]) <= 65
}

/// How many of the first `n` registers have run length `k`.
pub open spec fn run_count(regs: Seq<u32>, k: int, n: int) -> nat
    decreases n,
{
    if n <= 0 {
        0
    } else {
        run_count(regs, k, n - 1) + if run_of(regs[n - 1]) == k {
            1nat
        } else {
            0nat
        }
    }
}

proof fn lemma_run_range(h: u128, i: nat)
    requires
        1 <= i,
    ensures
        i <= 65 ==> i <= run_from(h, i),
        1 <= run_from(h, i) <= 65,
    decreases 65 - i,
{
    if i < 65 && h & (1u128 << (114 - i) as u128) == 0 {
        lemma_run_range(h, i + 1);
    }
}

proof fn lemma_pack(x: u32, r: u32)
    requires
        x < 1024,
        1 <= r <= 65,
    ensures
        (x | (r << 10u32)) >> 10u32 == r,
        (x | (r << 10u32)) >= 1024,
{
    assert((x | (r << 10u32)) >> 10u32 == r && (x | (r << 10u32)) >= 1024) by (bit_vector)
        requires
            x < 1024,
            1 <= r <= 65,
    ;
}

pub proof fn lemma_hash_fields(h: u128)
    ensures
        register_of(h) < NUM_REGISTERS,
        run_of(packed_value(h)) == run_length(h),
        1 <= run_length(h) <= 65,
        packed_value(h) >= 1024,
{
    assert(h >> 114u128 < 16384) by (bit_vector);
    assert(h & 1023u128 < 1024) by (bit_vector);
    lemma_run_range(h, 1);
    lemma_pack((h & 1023u128) as u32, run_length(h));
}

proof fn lemma_shift_le(a: u32, b: u32)
    requires
        a <= b,
    ensures
        run_of(a) <= run_of(b),
{
    assert(a >> 10u32 <= b >> 10u32) by (bit_vector)
        requires
            a <= b,
    ;
}

/// Splits a hash into its register index and run length.
pub fn pat_len(hash: &u128) -> (p: PatLen)
    ensures
        p.register == register_of(*hash),
        p.len == run_length(*hash),
{
    let h = *hash;
    let register = (h >> ((HASH_BITS - P) as u128)) as usize;
    let mut len: u32 = 1;
    let mut i: usize = 1;
    while i <= HLL_Q && h & (1u128 << ((HASH_BITS - P - i) as u128)) == 0
        invariant
            1 <= i <= 65,
            len == i,
            run_from(h, 1) == run_from(h, i as nat),
        decreases 65 - i,
    {
        len = len + 1;
        i = i + 1;
    }
    PatLen { register, len }
}

/// Inserts one element into a register store.
fn add_to<T: RegisterVector>(regs: &mut T, element: &[u8]) -> (changed: bool)
    requires
        old(regs).regs().len() == NUM_REGISTERS,
    ensures
        changed == would_change(old(regs).regs(), element@),
        final(regs).regs() == if changed {
            old(regs).regs().update(slot_of(element@), T::stored(packed_of(element@)))
        } else {
            old(regs).regs()
        },
{
    let hash = murmur3_x64_128(element, HASH_SEED);
    proof {
        lemma_hash_fields(hash);
    }
    let p = pat_len(&hash);
    let rbits = (hash & 1023u128) as u32;
    let packed = rbits | (p.len << (R as u32));
    if packed > regs.register_at(p.register) {
        regs.set_register(p.register, packed);
        true
    } else {
        false
    }
}

/// Raises each register of `target` to the value of `other` where that is larger.
pub(crate) fn merge_into<T: RegisterVector, U: RegisterVector>(target: &mut T, other: &U)
    requires
        old(target).regs().len() == NUM_REGISTERS,
        other.regs().len() == NUM_REGISTERS,
    ensures
        final(target).regs() == Seq::new(
            NUM_REGISTERS as nat,
            |i: int|
                if other.regs()[i] > old(target).regs()[i] {
                    T::stored(other.regs()[i])
                } else {
                    old(target).regs()[i]
                },
        ),
{
    let ghost start = target.regs();
    let mut i: usize = 0;
    while i < NUM_REGISTERS
        invariant
            i <= NUM_REGISTERS,
            other.regs().len() == NUM_REGISTERS,
            target.regs().len() == NUM_REGISTERS,
            start.len() == NUM_REGISTERS,
            forall|j: int|
                0 <= j < i ==> #[trigger] target.regs()[j] == if other.regs()[j] > start[j] {
                    T::stored(other.regs()[j])
                } else {
                    start[j]
                },
            forall|j: int| i <= j < NUM_REGISTERS ==> #[trigger] target.regs()[j] == start[j],
        decreases NUM_REGISTERS - i,
    {
        let reg = other.register_at(i);
        if reg > target.register_at(i) {
            target.set_register(i, reg);
        }
        i = i + 1;
    }
    assert(target.regs() =~= Seq::new(
        NUM_REGISTERS as nat,
        |i: int|
            if other.regs()[i] > start[i] {
                T::stored(other.regs()[i])
            } else {
                start[i]
            },
    ));
}

/// Counts the registers of each run length.
pub(crate) fn histogram_of<T: RegisterVector>(regs: &T) -> (h: Vec<u32>)
    requires
        regs.regs().len() == NUM_REGISTERS,
        valid_registers(regs.regs()),
    ensures
        h@.len() == HLL_BITS,
        forall|k: int| 0 <= k < HLL_BITS ==> #[trigger] h@[k] == run_count(regs.regs(), k, NUM_REGISTERS as int),
{
    let mut h: Vec<u32> = vec![0u32; HLL_BITS];
    let mut i: usize = 0;
    while i < NUM_REGISTERS
        invariant
            i <= NUM_REGISTERS,
            regs.regs().len() == NUM_REGISTERS,
            valid_registers(regs.regs()),
            h@.len() == HLL_BITS,
            forall|k: int| 0 <= k < HLL_BITS ==> #[trigger] h@[k] == run_count(regs.regs(), k, i as int),
            forall|k: int| 0 <= k < HLL_BITS ==> #[trigger] h@[k] <= i,
        decreases NUM_REGISTERS - i,
    {
        let reg = regs.register_at(i);
        let b = (reg >> (R as u32)) as usize;
        assert(run_of(regs.regs()[i as int]) <= 65);
        h.set(b, h[b] + 1);
        i = i + 1;
        assert forall|k: int| 0 <= k < HLL_BITS implies #[trigger] h@[k] == run_count(regs.regs(), k, i as int) by {
            assert(run_count(regs.regs(), k, i as int) == run_count(regs.regs(), k, i - 1) + if run_of(regs.regs()[i - 1]) == k { 1nat } else { 0nat });
        }
    }
    h
}

/// A sketch over a register store of any kind.
pub struct HyperMinHash<T: RegisterVector> {
    pub registers: T,
}

impl<T: RegisterVector> View for HyperMinHash<T> {
    type V = Seq<u32>;

    open spec fn view(&self) -> Seq<u32> {
        self.registers.regs()
    }
}

impl<T: RegisterVector> HyperMinHash<T> {
    /// The store has exactly NUM_REGISTERS registers.
    pub open spec fn wf(&self) -> bool {
        self@.len() == NUM_REGISTERS
    }

    pub fn wrap(registers: T) -> (s: Self)
        ensures
            s.registers == registers,
    {
        Self { registers }
    }

    /// Raises each register to the other sketch's value where that is larger.
    pub fn merge<U: RegisterVector>(&mut self, other: &HyperMinHash<U>)
        requires
            old(self).wf(),
            other.wf(),
        ensures
            final(self).wf(),
            final(self)@ == Seq::new(
                NUM_REGISTERS as nat,
                |i: int|
                    if other@[i] > old(self)@[i] {
                        T::stored(other@[i])
                    } else {
                        old(self)@[i]
                    },
            ),
            valid_registers(old(self)@) && valid_registers(other@) ==> valid_registers(final(self)@),
    {
        merge_into(&mut self.registers, &other.registers);
        proof {
            assert forall|i: int| 0 <= i < NUM_REGISTERS && valid_registers(old(self)@) && valid_registers(other@) implies run_of(#[trigger] self@[i]) <= 65 by {
                T::lemma_stored_le(other@[i]);
                lemma_shift_le(T::stored(other@[i]), other@[i]);
            }
        }
    }

    /// Inserts one element; says whether a register changed.
    pub fn add(&mut self, element: &[u8]) -> (changed: bool)
        requires
            old(self).wf(),
        ensures
            final(self).wf(),
            changed == would_change(old(self)@, element@),
            final(self)@ == if changed {
                old(self)@.update(slot_of(element@), T::stored(packed_of(element@)))
            } else {
                old(self)@
            },
            valid_registers(old(self)@) ==> valid_registers(final(self)@),
    {
        let changed = add_to(&mut self.registers, element);
        proof {
            lemma_hash_fields(hash_of(element@));
            T::lemma_stored_le(packed_of(element@));
            lemma_shift_le(T::stored(packed_of(element@)), packed_of(element@));
            assert forall|i: int| 0 <= i < NUM_REGISTERS && valid_registers(old(self)@) implies run_of(#[trigger] self@[i]) <= 65 by {
                if i != slot_of(element@) {
                    assert(self@[i] == old(self)@[i]);
                }
            }
        }
        changed
    }

    /// How many registers hold each run length, for run lengths 0 to HLL_BITS - 1.
    pub fn histogram(&self) -> (h: Vec<u32>)
        requires
            self.wf(),
            valid_registers(self@),
        ensures
            h@.len() == HLL_BITS,
            forall|k: int| 0 <= k < HLL_BITS ==> #[trigger] h@[k] == run_count(self@, k, NUM_REGISTERS as int),
    {
        histogram_of(&self.registers)
    }
}

/// A sketch over an in-memory register array.
pub struct MinHash {
    pub registers: ArrayRegisters,
}

impl View for MinHash {
    type V = Seq<u32>;

    open spec fn view(&self) -> Seq<u32> {
        self.registers.regs()
    }
}

/// The union of the registers of a list of sketches, from a fresh sketch on.
pub open spec fn merge_all(rs: Seq<Seq<u32>>) -> Seq<u32>
    decreases rs.len(),
{
    if rs.len() == 0 {
        empty_regs()
    } else {
        merge_regs(merge_all(rs.drop_last()), rs.last())
    }
}

impl MinHash {
    pub fn new() -> (m: Self)
        ensures
            m@ == empty_regs(),
    {
        MinHash { registers: crate::registers::new_array_registers() }
    }

    pub fn add(&mut self, element: &[u8])
        requires
            old(self)@.len() == NUM_REGISTERS,
        ensures
            final(self)@ == insert(old(self)@, element@),
            valid_registers(old(self)@) ==> valid_registers(final(self)@),
    {
        add_to(&mut self.registers, element);
        proof {
            lemma_hash_fields(hash_of(element@));
            assert forall|i: int| 0 <= i < NUM_REGISTERS && valid_registers(old(self)@) implies run_of(#[trigger] self@[i]) <= 65 by {
                if i != slot_of(element@) {
                    assert(self@[i] == old(self)@[i]);
                }
            }
        }
    }

    /// A fresh sketch holding the union of all the given sketches.
    pub fn merge(sketches: &[MinHash]) -> (m: MinHash)
        requires
            forall|k: int| 0 <= k < sketches@.len() ==> (#[trigger] sketches@[k])@.len() == NUM_REGISTERS,
        ensures
            m@ == merge_all(sketches@.map_values(|s: MinHash| s@)),
    {
        let ghost views = sketches@.map_values(|s: MinHash| s@);
        let mut target = MinHash::new();
        let mut k: usize = 0;
        while k < sketches.len()
            invariant
                k <= sketches@.len(),
                views == sketches@.map_values(|s: MinHash| s@),
                forall|j: int| 0 <= j < sketches@.len() ==> (#[trigger] sketches@[j])@.len() == NUM_REGISTERS,
                target@ == merge_all(views.subrange(0, k as int)),
                target@.len() == NUM_REGISTERS,
            decreases sketches@.len() - k,
        {
            merge_into(&mut target.registers, &sketches[k].registers);
            proof {
                let prefix = views.subrange(0, k as int + 1);
                assert(prefix.drop_last() =~= views.subrange(0, k as int));
                assert(target@ =~= merge_regs(merge_all(views.subrange(0, k as int)), views[k as int]));
            }
            k = k + 1;
        }
        assert(views.subrange(0, sketches@.len() as int) =~= views);
        target
    }

    /// How many registers hold each run length, for run lengths 0 to HLL_BITS - 1.
    pub fn histogram(&self) -> (h: Vec<u32>)
        requires
            self@.len() == NUM_REGISTERS,
            valid_registers(self@),
        ensures
            h@.len() == HLL_BITS,
            forall|k: int| 0 <= k < HLL_BITS ==> #[trigger] h@[k] == run_count(self@, k, NUM_REGISTERS as int),
    {
        histogram_of(&self.registers)
    }
}

} // verus!
