//! Endpoint id assignment: the ids 1 to 65535 in a cycle.
use super::model::ExportView;
use std::collections::BTreeSet;
use vstd::prelude::*;

verus! {

broadcast use {
    vstd::laws_cmp::group_laws_cmp,
    vstd::std_specs::btree::group_btree_axioms,
};

/// Endpoint 0 is the Matter root; assigned endpoints start at 1.
pub const FIRST_ENDPOINT_ID: u16 = 1;

/// The endpoint ids that a set of exports occupies.
pub open spec fn used_ids(exports: Map<u128, ExportView>) -> Set<u16> {
    Set::new(
        |e: u16|
            exists|id: u128| #[trigger]
                exports.contains_key(id) && exports[id].endpoint_id == Some(e),
    )
}

/// How many ids lie between `next` and `c` in the cycle of the ids 1 to 65535, where a
/// `next` of 0 stands for 1.
pub open spec fn steps_from(next: u16, c: u16) -> int {
    let start = if next == 0 {
        FIRST_ENDPOINT_ID
    } else {
        next
    };
    if c >= start {
        c - start
    } else {
        c - start + 65535
    }
}

/// Whether `c` is the first free id at or after `next` in the cycle of ids.
pub open spec fn is_next_free(next: u16, used: Set<u16>, c: u16) -> bool {
    &&& c != 0
    &&& !used.contains(c)
    &&& forall|d: u16|
        d != 0 && !used.contains(d) ==> steps_from(next, c) <= #[trigger] steps_from(next, d)
}

/// The first free id at or after `next` in the cycle of ids.
pub open spec fn next_free(next: u16, used: Set<u16>) -> u16 {
    choose|c: u16| is_next_free(next, used, c)
}

/// The id after `c`, or 0 after the last.
pub open spec fn id_after(c: u16) -> u16 {
    if c == u16::MAX {
        0
    } else {
        (c + 1) as u16
    }
}

/// Whether a set of ids leaves none to assign.
pub open spec fn full(used: Set<u16>) -> bool {
    used.len() >= 65535
}

/// Whether no endpoint id is left to assign.
pub open spec fn exhausted(exports: Map<u128, ExportView>) -> bool {
    full(used_ids(exports))
}

/// Two ids that are both first free are the same id.
pub proof fn lemma_next_free_unique(next: u16, used: Set<u16>, a: u16, b: u16)
    requires
        is_next_free(next, used, a),
        is_next_free(next, used, b),
    ensures
        a == b,
{
    assert(steps_from(next, a) <= steps_from(next, b));
    assert(steps_from(next, b) <= steps_from(next, a));
}

/// The ids 1 to `n`.
spec fn ids_up_to(n: u16) -> Set<u16> {
    Set::new(|e: u16| 1 <= e <= n)
}

proof fn lemma_ids_up_to(n: u16)
    ensures
        ids_up_to(n).finite(),
        ids_up_to(n).len() == n,
    decreases n,
{
    if n == 0 {
        assert(ids_up_to(0) =~= Set::empty());
    } else {
        let m = (n - 1) as u16;
        lemma_ids_up_to(m);
        assert(ids_up_to(n) =~= ids_up_to(m).insert(n));
    }
}

/// A set that holds every assignable id has 65535 elements or more.
proof fn lemma_full(used: Set<u16>)
    requires
        used.finite(),
        forall|d: u16| d != 0 ==> used.contains(d),
    ensures
        used.len() >= 65535,
{
    lemma_ids_up_to(u16::MAX);
    vstd::set_lib::lemma_len_subset(ids_up_to(u16::MAX), used);
}

/// A set without the root endpoint leaves no id exactly where it holds every assignable one.
pub proof fn lemma_full_iff(used: Set<u16>)
    requires
        !used.contains(0),
    ensures
        full(used) <==> forall|d: u16| d != 0 ==> used.contains(d),
{
    lemma_ids_finite(used);
    lemma_ids_up_to(u16::MAX);
    let all = ids_up_to(u16::MAX);
    if forall|d: u16| d != 0 ==> used.contains(d) {
        lemma_full(used);
    } else {
        let c = choose|c: u16| c != 0 && !used.contains(c);
        vstd::set_lib::lemma_len_subset(used, all.remove(c));
    }
}

/// A set that lacks the root's id or another one, besides some assignable id, leaves one.
pub proof fn lemma_some_id_is_left(used: Set<u16>, c: u16)
    requires
        c != 0,
        !used.contains(c),
        exists|d: u16| d != c && !#[trigger] used.contains(d),
    ensures
        !full(used),
{
    let d = choose|d: u16| d != c && !#[trigger] used.contains(d);
    lemma_ids_up_to(u16::MAX);
    let all = ids_up_to(u16::MAX).insert(0);
    lemma_ids_finite(used);
    vstd::set_lib::lemma_len_subset(used, all.remove(c).remove(d));
}

/// Where some id is free, there is a first free one.
proof fn lemma_next_free_exists(next: u16, used: Set<u16>, c: u16)
    requires
        c != 0,
        !used.contains(c),
    ensures
        exists|d: u16| is_next_free(next, used, d),
    decreases steps_from(next, c),
{
    if !is_next_free(next, used, c) {
        let d = choose|d: u16|
            d != 0 && !used.contains(d) && #[trigger] steps_from(next, d) < steps_from(next, c);
        lemma_next_free_exists(next, used, d);
    }
}

/// A set of endpoint ids is finite.
pub proof fn lemma_ids_finite(used: Set<u16>)
    ensures
        used.finite(),
{
    lemma_ids_up_to(u16::MAX);
    vstd::set_lib::lemma_set_subset_finite(ids_up_to(u16::MAX).insert(0), used);
}

/// Where fewer than all ids are in use, [`next_free`] is the first free one.
pub proof fn lemma_next_free(next: u16, used: Set<u16>)
    requires
        used.len() < 65535,
    ensures
        is_next_free(next, used, next_free(next, used)),
{
    lemma_ids_finite(used);
    if forall|d: u16| d != 0 ==> used.contains(d) {
        lemma_full(used);
    }
    let c = choose|c: u16| c != 0 && !used.contains(c);
    lemma_next_free_exists(next, used, c);
}

/// Finds the first id at or after `next`, in the cycle of the ids 1 to 65535, that
/// `used` does not hold.
pub fn find_free(next: u16, used: &BTreeSet<u16>) -> (c: u16)
    requires
        used@.finite(),
        used@.len() < 65535,
    ensures
        is_next_free(next, used@, c),
        c == next_free(next, used@),
{
    let mut candidate: u16 = if next == 0 {
        FIRST_ENDPOINT_ID
    } else {
        next
    };
    let ghost mut k: int = 0;
    while used.contains(&candidate)
        invariant
            used@.finite(),
            used@.len() < 65535,
            candidate != 0,
            0 <= k < 65535,
            k == steps_from(next, candidate),
            forall|d: u16| d != 0 && #[trigger] steps_from(next, d) < k ==> used@.contains(d),
        decreases 65535 - k,
    {
        proof {
            if k == 65534 {
                assert forall|d: u16| d != 0 implies used@.contains(d) by {
                    assert(steps_from(next, d) <= 65534);
                }
                lemma_full(used@);
            }
            k = k + 1;
        }
        candidate = if candidate == u16::MAX {
            FIRST_ENDPOINT_ID
        } else {
            candidate + 1
        };
    }
    proof {
        assert(is_next_free(next, used@, candidate));
        lemma_next_free_unique(next, used@, candidate, next_free(next, used@));
    }
    candidate
}

} // verus!
