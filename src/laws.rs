//! Laws of insertion and merging, stated over the register model.

use vstd::prelude::*;
use crate::registers::NUM_REGISTERS;
use crate::sketch::{
    empty_regs, hash_of, insert, insert_all, lemma_hash_fields, merge_regs, slot_of, would_change,
};

verus! {

proof fn lemma_insert_len(regs: Seq<u32>, e: Seq<u8>)
    requires
        regs.len() == NUM_REGISTERS,
    ensures
        insert(regs, e).len() == NUM_REGISTERS,
        0 <= slot_of(e) < NUM_REGISTERS,
{
    lemma_hash_fields(hash_of(e));
}

proof fn lemma_insert_all_len(regs: Seq<u32>, es: Seq<Seq<u8>>)
    requires
        regs.len() == NUM_REGISTERS,
    ensures
        insert_all(regs, es).len() == NUM_REGISTERS,
    decreases es.len(),
{
    if es.len() > 0 {
        lemma_insert_all_len(regs, es.drop_last());
        lemma_insert_len(insert_all(regs, es.drop_last()), es.last());
    }
}

proof fn lemma_insert_all_concat(regs: Seq<u32>, a: Seq<Seq<u8>>, b: Seq<Seq<u8>>)
    ensures
        insert_all(regs, a + b) == insert_all(insert_all(regs, a), b),
    decreases b.len(),
{
    if b.len() == 0 {
        assert(a + b =~= a);
    } else {
        assert((a + b).drop_last() =~= a + b.drop_last());
        lemma_insert_all_concat(regs, a, b.drop_last());
    }
}

proof fn lemma_insert_all_grows(regs: Seq<u32>, es: Seq<Seq<u8>>)
    requires
        regs.len() == NUM_REGISTERS,
    ensures
        forall|i: int| 0 <= i < NUM_REGISTERS ==> regs[i] <= #[trigger] insert_all(regs, es)[i],
    decreases es.len(),
{
    if es.len() > 0 {
        lemma_insert_all_grows(regs, es.drop_last());
        lemma_insert_all_len(regs, es.drop_last());
        lemma_insert_len(insert_all(regs, es.drop_last()), es.last());
    }
}

/// Inserting an element into a fresh sketch changes it; inserting the same
/// element again, into any sketch, reports no change and leaves it as it was.
pub proof fn lemma_add_idempotent(regs: Seq<u32>, e: Seq<u8>)
    requires
        regs.len() == NUM_REGISTERS,
    ensures
        regs == empty_regs() ==> would_change(regs, e),
        !would_change(insert(regs, e), e),
        insert(insert(regs, e), e) == insert(regs, e),
{
    lemma_hash_fields(hash_of(e));
}

/// Over any sequence of insertions, no register ever decreases: the registers
/// after the first `j` insertions are at most those after the first `k`.
pub proof fn lemma_registers_never_decrease(regs: Seq<u32>, es: Seq<Seq<u8>>, j: int, k: int)
    requires
        regs.len() == NUM_REGISTERS,
        0 <= j <= k <= es.len(),
    ensures
        forall|i: int|
            0 <= i < NUM_REGISTERS ==> insert_all(regs, es.take(j))[i] <= #[trigger] insert_all(
                regs,
                es.take(k),
            )[i],
{
    assert(es.take(k) =~= es.take(j) + es.subrange(j, k));
    lemma_insert_all_concat(regs, es.take(j), es.subrange(j, k));
    lemma_insert_all_len(regs, es.take(j));
    lemma_insert_all_grows(insert_all(regs, es.take(j)), es.subrange(j, k));
}

proof fn lemma_insert_merge(a: Seq<u32>, b: Seq<u32>, e: Seq<u8>)
    requires
        a.len() == NUM_REGISTERS,
        b.len() == NUM_REGISTERS,
    ensures
        insert(merge_regs(a, b), e) == merge_regs(a, insert(b, e)),
{
    lemma_insert_len(b, e);
    assert(insert(merge_regs(a, b), e) =~= merge_regs(a, insert(b, e)));
}

proof fn lemma_insert_all_merge(a: Seq<u32>, b: Seq<u32>, es: Seq<Seq<u8>>)
    requires
        a.len() == NUM_REGISTERS,
        b.len() == NUM_REGISTERS,
    ensures
        insert_all(merge_regs(a, b), es) == merge_regs(a, insert_all(b, es)),
    decreases es.len(),
{
    if es.len() > 0 {
        lemma_insert_all_merge(a, b, es.drop_last());
        lemma_insert_all_len(b, es.drop_last());
        lemma_insert_merge(a, insert_all(b, es.drop_last()), es.last());
    }
}

/// Merging the sketches of two element sequences gives exactly the sketch of
/// both sequences inserted one after the other.
pub proof fn lemma_merge_is_union(a: Seq<Seq<u8>>, b: Seq<Seq<u8>>)
    ensures
        merge_regs(insert_all(empty_regs(), a), insert_all(empty_regs(), b)) == insert_all(
            empty_regs(),
            a + b,
        ),
{
    let sa = insert_all(empty_regs(), a);
    lemma_insert_all_len(empty_regs(), a);
    lemma_insert_all_concat(empty_regs(), a, b);
    assert(merge_regs(sa, empty_regs()) =~= sa);
    lemma_insert_all_merge(sa, empty_regs(), b);
}

/// Merging is commutative.
pub proof fn lemma_merge_commutative(a: Seq<u32>, b: Seq<u32>)
    requires
        a.len() == b.len(),
    ensures
        merge_regs(a, b) == merge_regs(b, a),
{
    assert(merge_regs(a, b) =~= merge_regs(b, a));
}

/// Merging is associative.
pub proof fn lemma_merge_associative(a: Seq<u32>, b: Seq<u32>, c: Seq<u32>)
    requires
        a.len() == b.len(),
        b.len() == c.len(),
    ensures
        merge_regs(merge_regs(a, b), c) == merge_regs(a, merge_regs(b, c)),
{
    assert(merge_regs(merge_regs(a, b), c) =~= merge_regs(a, merge_regs(b, c)));
}

/// Merging a sketch with itself leaves it as it is.
pub proof fn lemma_merge_idempotent(a: Seq<u32>)
    ensures
        merge_regs(a, a) == a,
{
    assert(merge_regs(a, a) =~= a);
}

} // verus!
