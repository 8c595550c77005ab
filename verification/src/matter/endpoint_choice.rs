//! Which exports get the endpoints that they ask for.
use super::slot;
use super::slot::{wanted_endpoint, SlotView};
use crate::catalog::model;
use crate::catalog::model::ExportView;
use crate::catalog::Export;
use vstd::prelude::*;

verus! {

/// Whether the endpoint that export `j` asks for is among those of the chosen exports.
pub open spec fn is_settled(exports: Seq<ExportView>, chosen: Seq<usize>, j: int) -> bool {
    exists|k: int|
        0 <= k < chosen.len() && slot::slot_endpoint(exports[#[trigger] chosen[k] as int])
            == slot::slot_endpoint(exports[j])
}

/// Whether `chosen` holds, by increasing endpoint, the exports among the first `n` that get
/// their endpoints.
pub open spec fn is_choice(exports: Seq<ExportView>, n: int, chosen: Seq<usize>) -> bool {
    &&& forall|k: int|
        0 <= k < chosen.len() ==> slot::wins_among(exports, n, #[trigger] chosen[k] as int)
    &&& forall|a: int, b: int|
        0 <= a < b < chosen.len() ==> slot::slot_endpoint(exports[#[trigger] chosen[a] as int])->0
            < slot::slot_endpoint(exports[#[trigger] chosen[b] as int])->0
    &&& forall|j: int|
        0 <= j < n && slot::slot_endpoint(exports[j]) is Some ==> #[trigger] is_settled(
            exports,
            chosen,
            j,
        )
}

/// The next export asks for no endpoint, or loses against one of those chosen.
pub proof fn lemma_choice_keep(exports: Seq<ExportView>, n: int, chosen: Seq<usize>, p: int)
    requires
        0 <= n < exports.len(),
        is_choice(exports, n, chosen),
        slot::slot_endpoint(exports[n]) is Some ==> {
            &&& 0 <= p < chosen.len()
            &&& slot::slot_endpoint(exports[chosen[p] as int]) == slot::slot_endpoint(exports[n])
            &&& exports[chosen[p] as int].export_id <= exports[n].export_id
        },
    ensures
        is_choice(exports, n + 1, chosen),
{
    assert forall|k: int| 0 <= k < chosen.len() implies slot::wins_among(
        exports,
        n + 1,
        #[trigger] chosen[k] as int,
    ) by {
        assert(slot::wins_among(exports, n, chosen[k] as int));
        if slot::slot_endpoint(exports[n]) is Some && k != p {
            assert(slot::slot_endpoint(exports[chosen[k] as int])->0 != slot::slot_endpoint(
                exports[chosen[p] as int],
            )->0);
        }
    }
    assert forall|j: int| 0 <= j < n + 1 && slot::slot_endpoint(exports[j]) is Some implies
        #[trigger] is_settled(exports, chosen, j) by {
        if j == n {
            assert(slot::slot_endpoint(exports[chosen[p] as int]) == slot::slot_endpoint(exports[j]));
        }
    }
}

/// The next export wins against one of those chosen.
pub proof fn lemma_choice_replace(exports: Seq<ExportView>, n: int, chosen: Seq<usize>, p: int, i: usize)
    requires
        0 <= n < exports.len(),
        i == n,
        is_choice(exports, n, chosen),
        0 <= p < chosen.len(),
        slot::slot_endpoint(exports[n]) is Some,
        slot::slot_endpoint(exports[chosen[p] as int]) == slot::slot_endpoint(exports[n]),
        exports[n].export_id < exports[chosen[p] as int].export_id,
    ensures
        is_choice(exports, n + 1, chosen.update(p, i)),
{
    let now = chosen.update(p, i);
    let c = chosen[p] as int;
    assert(slot::wins_among(exports, n, c));
    assert forall|j: int|
        0 <= j < n + 1 && j != n && slot::slot_endpoint(#[trigger] exports[j]) == slot::slot_endpoint(
            exports[n],
        ) implies exports[n].export_id < exports[j].export_id by {
        if j != c {
            assert(exports[c].export_id <= exports[j].export_id);
        }
    }
    assert(slot::wins_among(exports, n + 1, n));
    assert forall|k: int| 0 <= k < now.len() implies slot::wins_among(
        exports,
        n + 1,
        #[trigger] now[k] as int,
    ) by {
        if k != p {
            assert(now[k] == chosen[k]);
            assert(slot::wins_among(exports, n, chosen[k] as int));
            assert(slot::slot_endpoint(exports[chosen[k] as int])->0 != slot::slot_endpoint(
                exports[chosen[p] as int],
            )->0);
        }
    }
    assert forall|a: int, b: int| 0 <= a < b < now.len() implies slot::slot_endpoint(
        exports[#[trigger] now[a] as int],
    )->0 < slot::slot_endpoint(exports[#[trigger] now[b] as int])->0 by {
        assert(slot::slot_endpoint(exports[chosen[a] as int])->0 < slot::slot_endpoint(
            exports[chosen[b] as int],
        )->0);
    }
    assert forall|j: int| 0 <= j < n + 1 && slot::slot_endpoint(exports[j]) is Some implies
        #[trigger] is_settled(exports, now, j) by {
        if j == n {
            assert(now[p] == i);
        } else {
            assert(is_settled(exports, chosen, j));
            let k = choose|k: int|
                0 <= k < chosen.len() && slot::slot_endpoint(exports[#[trigger] chosen[k] as int])
                    == slot::slot_endpoint(exports[j]);
            assert(slot::slot_endpoint(exports[now[k] as int]) == slot::slot_endpoint(exports[j]));
        }
    }
}

/// The next export is the first to ask for its endpoint.
pub proof fn lemma_choice_insert(exports: Seq<ExportView>, n: int, chosen: Seq<usize>, p: int, i: usize)
    requires
        0 <= n < exports.len(),
        i == n,
        is_choice(exports, n, chosen),
        0 <= p <= chosen.len(),
        slot::slot_endpoint(exports[n]) is Some,
        forall|k: int|
            0 <= k < p ==> slot::slot_endpoint(exports[#[trigger] chosen[k] as int])->0 < slot::slot_endpoint(
                exports[n],
            )->0,
        p < chosen.len() ==> slot::slot_endpoint(exports[n])->0 < slot::slot_endpoint(
            exports[chosen[p] as int],
        )->0,
    ensures
        is_choice(exports, n + 1, chosen.insert(p, i)),
{
    let now = chosen.insert(p, i);
    assert forall|k: int| 0 <= k < chosen.len() implies slot::slot_endpoint(
        exports[#[trigger] chosen[k] as int],
    )->0 != slot::slot_endpoint(exports[n])->0 by {
        if k > p {
            assert(slot::slot_endpoint(exports[chosen[p] as int])->0 < slot::slot_endpoint(
                exports[chosen[k] as int],
            )->0);
        }
    }
    assert forall|j: int| 0 <= j < n implies slot::slot_endpoint(#[trigger] exports[j]) != slot::slot_endpoint(
        exports[n],
    ) by {
        if slot::slot_endpoint(exports[j]) == slot::slot_endpoint(exports[n]) {
            assert(is_settled(exports, chosen, j));
            let k = choose|k: int|
                0 <= k < chosen.len() && slot::slot_endpoint(exports[#[trigger] chosen[k] as int])
                    == slot::slot_endpoint(exports[j]);
            assert(slot::slot_endpoint(exports[chosen[k] as int])->0 != slot::slot_endpoint(exports[n])->0);
        }
    }
    assert(slot::wins_among(exports, n + 1, n));
    assert forall|k: int| 0 <= k < now.len() implies slot::wins_among(
        exports,
        n + 1,
        #[trigger] now[k] as int,
    ) by {
        if k != p {
            let o = if k < p {
                k
            } else {
                k - 1
            };
            assert(now[k] == chosen[o]);
            assert(slot::wins_among(exports, n, chosen[o] as int));
        }
    }
    assert forall|a: int, b: int| 0 <= a < b < now.len() implies slot::slot_endpoint(
        exports[#[trigger] now[a] as int],
    )->0 < slot::slot_endpoint(exports[#[trigger] now[b] as int])->0 by {
        let x = if a < p {
            a
        } else {
            a - 1
        };
        let y = if b < p {
            b
        } else {
            b - 1
        };
        if a != p {
            assert(now[a] == chosen[x]);
        }
        if b != p {
            assert(now[b] == chosen[y]);
        }
        if a == p && y != p {
            assert(slot::slot_endpoint(exports[chosen[p] as int])->0 < slot::slot_endpoint(
                exports[chosen[y] as int],
            )->0);
        }
    }
    assert forall|j: int| 0 <= j < n + 1 && slot::slot_endpoint(exports[j]) is Some implies
        #[trigger] is_settled(exports, now, j) by {
        if j == n {
            assert(now[p] == i);
        } else {
            assert(is_settled(exports, chosen, j));
            let k = choose|k: int|
                0 <= k < chosen.len() && slot::slot_endpoint(exports[#[trigger] chosen[k] as int])
                    == slot::slot_endpoint(exports[j]);
            let m = if k < p {
                k
            } else {
                k + 1
            };
            assert(now[m] == chosen[k]);
        }
    }
}

/// The endpoint that export `i` asks for, which asks for one.
pub fn endpoint_at(exports: &[Export], i: usize) -> (r: u16)
    requires
        i < exports@.len(),
        slot::slot_endpoint(exports@[i as int]@) is Some,
    ensures
        Some(r) == slot::slot_endpoint(exports@[i as int]@),
{
    match wanted_endpoint(&exports[i]) {
        Some(endpoint) => endpoint,
        None => 0,
    }
}

/// Where the endpoint belongs among those of the chosen exports.
pub fn position(exports: &[Export], chosen: &Vec<usize>, endpoint: u16, n: usize) -> (p: usize)
    requires
        n <= exports@.len(),
        is_choice(model::export_views(exports@), n as int, chosen@),
    ensures
        p <= chosen@.len(),
        forall|k: int|
            0 <= k < p ==> slot::slot_endpoint(exports@[#[trigger] chosen@[k] as int]@)->0 < endpoint,
        p < chosen@.len() ==> chosen@[p as int] < n && slot::slot_endpoint(
            exports@[chosen@[p as int] as int]@,
        ) is Some && endpoint <= slot::slot_endpoint(exports@[chosen@[p as int] as int]@)->0,
{
    let ghost views = model::export_views(exports@);
    let mut p: usize = 0;
    while p < chosen.len()
        invariant
            p <= chosen@.len(),
            n <= exports@.len(),
            views == model::export_views(exports@),
            is_choice(views, n as int, chosen@),
            forall|k: int|
                0 <= k < p ==> slot::slot_endpoint(exports@[#[trigger] chosen@[k] as int]@)->0 < endpoint,
        decreases chosen.len() - p,
    {
        assert(slot::wins_among(views, n as int, chosen@[p as int] as int));
        assert(views[chosen@[p as int] as int] == exports@[chosen@[p as int] as int]@);
        if endpoint <= endpoint_at(exports, chosen[p]) {
            return p;
        }
        p = p + 1;
    }
    p
}

/// The exports that get their endpoints, by increasing endpoint.
pub fn winners(exports: &[Export]) -> (r: Vec<usize>)
    ensures
        is_choice(
            model::export_views(exports@),
            exports@.len() as int,
            r@,
        ),
{
    let ghost views = model::export_views(exports@);
    let mut chosen: Vec<usize> = Vec::new();
    for i in 0..exports.len()
        invariant
            views == model::export_views(exports@),
            is_choice(views, i as int, chosen@),
    {
        assert(views[i as int] == exports@[i as int]@);
        match wanted_endpoint(&exports[i]) {
            None => {
                proof {
                    lemma_choice_keep(views, i as int, chosen@, 0);
                }
            },
            Some(endpoint) => {
                let p: usize = position(exports, &chosen, endpoint, i);
                proof {
                    assert forall|k: int| 0 <= k < p implies slot::slot_endpoint(
                        views[#[trigger] chosen@[k] as int],
                    )->0 < endpoint by {
                        assert(slot::wins_among(views, i as int, chosen@[k] as int));
                    }
                }
                if p < chosen.len() && endpoint_at(exports, chosen[p]) == endpoint {
                    let c: usize = chosen[p];
                    assert(views[c as int] == exports@[c as int]@);
                    if exports[i].export_id < exports[c].export_id {
                        proof {
                            lemma_choice_replace(views, i as int, chosen@, p as int, i);
                        }
                        chosen.set(p, i);
                    } else {
                        proof {
                            lemma_choice_keep(views, i as int, chosen@, p as int);
                        }
                    }
                } else {
                    proof {
                        if p < chosen@.len() {
                            assert(views[chosen@[p as int] as int]
                                == exports@[chosen@[p as int] as int]@);
                        }
                        lemma_choice_insert(views, i as int, chosen@, p as int, i);
                    }
                    chosen.insert(p, i);
                }
            },
        }
    }
    chosen
}

/// Slots built for the chosen exports make up the slot table.
pub proof fn lemma_is_slot_table(
    exports: Seq<ExportView>,
    previous: Seq<SlotView>,
    slots: Seq<SlotView>,
    chosen: Seq<usize>,
)
    requires
        is_choice(exports, exports.len() as int, chosen),
        slots.len() == chosen.len(),
        forall|a: int|
            0 <= a < chosen.len() ==> {
                let i = chosen[a] as int;
                &&& slot::slot_endpoint(exports[i]) == Some((#[trigger] slots[a]).matter_endpoint)
                &&& slot::is_rebuilt(
                    exports[i],
                    slots[a].matter_endpoint,
                    slot::slot_of(previous, exports[i].export_id),
                    slots[a],
                )
            },
    ensures
        slot::is_slot_table(exports, previous, slots),
        forall|k: int| 0 <= k < slots.len() ==> (#[trigger] slots[k]).wf(),
{
    let n = exports.len() as int;
    assert forall|a: int, b: int| 0 <= a < b < slots.len() implies (
    #[trigger] slots[a]).matter_endpoint < (#[trigger] slots[b]).matter_endpoint by {
        assert(slot::slot_endpoint(exports[chosen[a] as int])->0 < slot::slot_endpoint(
            exports[chosen[b] as int],
        )->0);
    }
    assert forall|k: int| 0 <= k < slots.len() implies (#[trigger] slots[k]).wf() by {
        assert(slot::wins_among(exports, n, chosen[k] as int));
    }
    assert forall|k: int| 0 <= k < slots.len() implies #[trigger] slot::comes_from(
        exports,
        previous,
        slots[k],
    ) by {
        let i = chosen[k] as int;
        assert(slot::wins_among(exports, n, chosen[k] as int));
        assert(slot::wins(exports, i));
    }
    assert forall|i: int| #![trigger slot::serves(slots, slot::slot_endpoint(exports[i])->0)]
        slot::wins(exports, i) implies slot::serves(slots, slot::slot_endpoint(exports[i])->0) by {
        assert(is_settled(exports, chosen, i));
        let k = choose|k: int|
            0 <= k < chosen.len() && slot::slot_endpoint(exports[#[trigger] chosen[k] as int])
                == slot::slot_endpoint(exports[i]);
        assert(slots[k].matter_endpoint == slot::slot_endpoint(exports[i])->0);
    }
}

} // verus!
