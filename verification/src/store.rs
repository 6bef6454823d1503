//! Spec-level views of the entity store: counting entities of a kind over
//! a sequence prefix, identifier ordering, and record sanity, with the
//! lemmas the per-tick systems use to maintain them.
use vstd::prelude::*;

use crate::entity::{Entity, Kind, entity_wf};

verus! {

/// How many of the first `n` records have kind `k`.
pub open spec fn count_kind_upto(s: Seq<Entity>, k: Kind, n: int) -> nat
    decreases n,
{
    if n <= 0 {
        0
    } else {
        count_kind_upto(s, k, n - 1) + (if s[n - 1].kind == k {
            1nat
        } else {
            0nat
        })
    }
}

/// How many records of the store have kind `k`.
pub open spec fn count_kind(s: Seq<Entity>, k: Kind) -> nat {
    count_kind_upto(s, k, s.len() as int)
}

/// Entity identifiers strictly increase along the store, so every
/// identifier names at most one record.
pub open spec fn ids_strictly_sorted(s: Seq<Entity>) -> bool {
    forall|i: int, j: int| 0 <= i < j < s.len() ==> s[i].id < s[j].id
}

/// Every identifier in the store lies below `hi`.
pub open spec fn ids_below(s: Seq<Entity>, hi: u64) -> bool {
    forall|i: int| 0 <= i < s.len() ==> (#[trigger] s[i]).id < hi
}

/// Every record of the store is range-sane.
pub open spec fn all_wf(s: Seq<Entity>) -> bool {
    forall|i: int| 0 <= i < s.len() ==> entity_wf(#[trigger] s[i])
}

/// The count over a prefix reads only that prefix.
pub proof fn lemma_count_upto_congruent(s: Seq<Entity>, t: Seq<Entity>, k: Kind, n: int)
    requires
        0 <= n <= s.len(),
        n <= t.len(),
        forall|i: int| 0 <= i < n ==> s[i].kind == (#[trigger] t[i]).kind,
    ensures
        count_kind_upto(s, k, n) == count_kind_upto(t, k, n),
    decreases n,
{
    if n > 0 {
        lemma_count_upto_congruent(s, t, k, n - 1);
    }
}

/// Appending a record adds its own contribution and nothing else.
pub proof fn lemma_count_kind_push(s: Seq<Entity>, e: Entity, k: Kind)
    ensures
        count_kind(s.push(e), k) == count_kind(s, k) + (if e.kind == k {
            1nat
        } else {
            0nat
        }),
{
    assert(s.push(e).len() == s.len() + 1);
    assert(s.push(e)[s.len() as int] == e);
    lemma_count_upto_congruent(s.push(e), s, k, s.len() as int);
}

/// A prefix never holds more records of a kind than the whole.
pub proof fn lemma_count_upto_le(s: Seq<Entity>, k: Kind, m: int, n: int)
    requires
        0 <= m <= n,
    ensures
        count_kind_upto(s, k, m) <= count_kind_upto(s, k, n),
    decreases n - m,
{
    if m < n {
        lemma_count_upto_le(s, k, m, n - 1);
    }
}

/// The count never exceeds the prefix length.
pub proof fn lemma_count_upto_le_len(s: Seq<Entity>, k: Kind, n: int)
    requires
        0 <= n,
    ensures
        count_kind_upto(s, k, n) <= n,
    decreases n,
{
    if n > 0 {
        lemma_count_upto_le_len(s, k, n - 1);
    }
}

/// A stretch free of kind `k` adds nothing to the count.
pub proof fn lemma_count_upto_absent(s: Seq<Entity>, k: Kind, m: int, n: int)
    requires
        0 <= m <= n <= s.len(),
        forall|i: int| m <= i < n ==> (#[trigger] s[i]).kind != k,
    ensures
        count_kind_upto(s, k, n) == count_kind_upto(s, k, m),
    decreases n - m,
{
    if m < n {
        lemma_count_upto_absent(s, k, m, n - 1);
    }
}

/// Counting over a store whose records of kind `k` form exactly the index
/// block `[a, b)`: the count of the first `n` records is the overlap of
/// `[0, n)` with that block.
pub proof fn lemma_count_upto_block(s: Seq<Entity>, k: Kind, a: int, b: int, n: int)
    requires
        0 <= a <= b,
        0 <= n <= s.len(),
        forall|i: int| 0 <= i < s.len() && a <= i < b ==> (#[trigger] s[i]).kind == k,
        forall|i: int| 0 <= i < s.len() && !(a <= i < b) ==> (#[trigger] s[i]).kind != k,
    ensures
        count_kind_upto(s, k, n) == if n <= a {
            0int
        } else if n <= b {
            n - a
        } else {
            b - a
        },
    decreases n,
{
    if n > 0 {
        lemma_count_upto_block(s, k, a, b, n - 1);
    }
}

} // verus!
