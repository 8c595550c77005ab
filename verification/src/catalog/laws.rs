//! What holds of the catalog as a whole.
use super::error::CatalogErrorView;
use super::model::ExportView;
use super::requests::{CreateExport, PatchExport};
use super::rules::{CatalogView, Progress};
use super::{endpoint_ids, rules};
use vstd::prelude::*;

verus! {

/// Whether no two exports share an endpoint id.
pub open spec fn distinct_endpoints(exports: Map<u128, ExportView>) -> bool {
    forall|a: u128, b: u128|
        #![trigger exports.contains_key(a), exports.contains_key(b)]
        exports.contains_key(a) && exports.contains_key(b) && a != b
            && exports[a].endpoint_id is Some ==> exports[a].endpoint_id != exports[b].endpoint_id
}

/// Where the ids are not exhausted, the id to assign is not the root endpoint, belongs to
/// no export, and is the first such id from the next one on.
pub proof fn law_assigned_id_is_free(exports: Map<u128, ExportView>, next: u16)
    requires
        !endpoint_ids::exhausted(exports),
    ensures
        ({
            let ep = endpoint_ids::next_free(next, endpoint_ids::used_ids(exports));
            &&& ep >= endpoint_ids::FIRST_ENDPOINT_ID
            &&& forall|id: u128| #[trigger]
                exports.contains_key(id) ==> exports[id].endpoint_id != Some(ep)
            &&& endpoint_ids::is_next_free(next, endpoint_ids::used_ids(exports), ep)
        }),
{
    let used = endpoint_ids::used_ids(exports);
    endpoint_ids::lemma_next_free(next, used);
    let ep = endpoint_ids::next_free(next, used);
    assert forall|id: u128| #[trigger] exports.contains_key(id) implies exports[id].endpoint_id
        != Some(ep) by {
        if exports[id].endpoint_id == Some(ep) {
            assert(used.contains(ep));
        }
    }
}

/// A catalog has one listing: each export once, by increasing identity.
pub proof fn law_listing_is_unique(
    exports: Map<u128, ExportView>,
    a: Seq<ExportView>,
    b: Seq<ExportView>,
)
    requires
        rules::well_filed(exports),
        rules::is_listing(exports, a),
        rules::is_listing(exports, b),
    ensures
        a == b,
    decreases a.len(),
{
    if a.len() == 0 {
        if b.len() > 0 {
            assert(exports.contains_key(b[0].export_id));
        }
        assert(a =~= b);
    } else {
        assert(exports.contains_key(a[0].export_id));
        assert(b.len() > 0);
        let last = a.last();
        let id = last.export_id;
        assert(exports.contains_key(a[a.len() - 1].export_id));
        // The last elements agree: each is the export with the greatest identity.
        let k = choose|k: int| 0 <= k < b.len() && b[k] == exports[id];
        assert(exports.contains_key(b[b.len() - 1].export_id));
        let j = choose|j: int| 0 <= j < a.len() && a[j] == exports[b.last().export_id];
        assert(a[j] == b.last());
        assert(a[j].export_id <= a.last().export_id);
        assert(b[k].export_id <= b.last().export_id);
        assert(b.last() == last);
        let rest = exports.remove(id);
        assert(rules::is_listing(rest, a.drop_last())) by {
            lemma_listing_drop_last(exports, a);
        }
        assert(rules::is_listing(rest, b.drop_last())) by {
            lemma_listing_drop_last(exports, b);
        }
        law_listing_is_unique(rest, a.drop_last(), b.drop_last());
        assert(a =~= a.drop_last().push(a.last()));
        assert(b =~= b.drop_last().push(b.last()));
    }
}

/// A listing without its last export lists the rest.
proof fn lemma_listing_drop_last(exports: Map<u128, ExportView>, s: Seq<ExportView>)
    requires
        rules::well_filed(exports),
        rules::is_listing(exports, s),
        s.len() > 0,
    ensures
        rules::is_listing(exports.remove(s.last().export_id), s.drop_last()),
{
    let id = s.last().export_id;
    let rest = exports.remove(id);
    let front = s.drop_last();
    assert forall|i: int| 0 <= i < front.len() implies rest.contains_key(
        (#[trigger] front[i]).export_id,
    ) && rest[front[i].export_id] == front[i] by {
        assert(front[i] == s[i]);
        assert(s[i].export_id < s[s.len() - 1].export_id);
    }
    assert forall|x: u128| #[trigger] rest.contains_key(x) implies exists|i: int|
        0 <= i < front.len() && front[i] == rest[x] by {
        assert(exports.contains_key(x));
        let i = choose|i: int| 0 <= i < s.len() && s[i] == exports[x];
        assert(i != s.len() - 1);
        assert(front[i] == rest[x]);
    }
}

/// A created export can be read back under its identity, every other export stays as it
/// was, and the new endpoint id belongs to no other export.
pub proof fn law_create(cat: CatalogView, id: u128, body: CreateExport)
    requires
        rules::create_outcome(cat, id, body).1 is Ok,
    ensures
        ({
            let after = rules::create_outcome(cat, id, body).0;
            let e = rules::create_outcome(cat, id, body).1->Ok_0;
            &&& !cat.exports.contains_key(id)
            &&& after.exports.contains_key(id)
            &&& after.exports[id] == e
            &&& e.export_id == id
            &&& e.endpoint_id is Some
            &&& e.endpoint_id->0 >= endpoint_ids::FIRST_ENDPOINT_ID
            &&& forall|x: u128|
                x != id ==> (#[trigger] after.exports.contains_key(x) <==> cat.exports.contains_key(
                    x,
                ))
            &&& forall|x: u128| #[trigger]
                cat.exports.contains_key(x) ==> after.exports[x] == cat.exports[x]
                    && cat.exports[x].endpoint_id != e.endpoint_id
            &&& distinct_endpoints(cat.exports) ==> distinct_endpoints(after.exports)
        }),
{
    law_assigned_id_is_free(cat.exports, cat.next_endpoint);
    let after = rules::create_outcome(cat, id, body).0;
    if distinct_endpoints(cat.exports) {
        assert forall|a: u128, b: u128|
            #![trigger after.exports.contains_key(a), after.exports.contains_key(b)]
            after.exports.contains_key(a) && after.exports.contains_key(b) && a != b
                && after.exports[a].endpoint_id is Some implies after.exports[a].endpoint_id
            != after.exports[b].endpoint_id by {
            assert(a == id || cat.exports.contains_key(a));
            assert(b == id || cat.exports.contains_key(b));
        }
    }
}

/// A create request that fails changes nothing.
pub proof fn law_failed_create_changes_nothing(cat: CatalogView, id: u128, body: CreateExport)
    requires
        rules::create_outcome(cat, id, body).1 is Err,
    ensures
        rules::create_outcome(cat, id, body).0 == cat,
{
}

/// A patch, whether it succeeds or not, keeps every identity and every endpoint id, and
/// touches no other export.
pub proof fn law_patch_keeps_endpoints(cat: CatalogView, id: u128, body: PatchExport)
    ensures
        ({
            let after = rules::patch_outcome(cat, id, body).0;
            &&& after.exports.dom() == cat.exports.dom()
            &&& after.next_endpoint == cat.next_endpoint
            &&& forall|x: u128| #[trigger]
                cat.exports.contains_key(x) ==> {
                    &&& after.exports[x].endpoint_id == cat.exports[x].endpoint_id
                    &&& after.exports[x].export_id == cat.exports[x].export_id
                    &&& x != id ==> after.exports[x] == cat.exports[x]
                }
            &&& distinct_endpoints(cat.exports) ==> distinct_endpoints(after.exports)
        }),
{
    let after = rules::patch_outcome(cat, id, body).0;
    assert(after.exports.dom() =~= cat.exports.dom());
    assert(forall|x: u128|
        after.exports.contains_key(x) <==> #[trigger] cat.exports.contains_key(x));
}

/// A deleted export is gone, and every other export stays as it was.
pub proof fn law_delete(cat: CatalogView, id: u128)
    requires
        rules::delete_outcome(cat, id).1 is Ok,
    ensures
        ({
            let after = rules::delete_outcome(cat, id).0;
            &&& rules::delete_outcome(cat, id).1 == Ok::<ExportView, CatalogErrorView>(
                cat.exports[id],
            )
            &&& !after.exports.contains_key(id)
            &&& forall|x: u128|
                x != id ==> (#[trigger] after.exports.contains_key(x) <==> cat.exports.contains_key(
                    x,
                ))
            &&& forall|x: u128|
                x != id && #[trigger] cat.exports.contains_key(x) ==> after.exports[x]
                    == cat.exports[x]
            &&& distinct_endpoints(cat.exports) ==> distinct_endpoints(after.exports)
        }),
{
    let after = rules::delete_outcome(cat, id).0;
    assert(forall|x: u128|
        #![trigger after.exports.contains_key(x)]
        after.exports.contains_key(x) ==> cat.exports.contains_key(x));
}

/// A successful replacement lets every identity that was known before keep its endpoint
/// id, and gives every export one.
pub proof fn law_replace_keeps_endpoints(
    cat: CatalogView,
    bridge_name: Seq<char>,
    incoming: Seq<ExportView>,
)
    requires
        rules::well_filed(cat.exports),
        rules::replace_outcome(cat, bridge_name, incoming).1 is None,
    ensures
        ({
            let after = rules::replace_outcome(cat, bridge_name, incoming).0;
            &&& rules::well_filed(after.exports)
            &&& forall|id: u128| #[trigger]
                after.exports.contains_key(id) && cat.exports.contains_key(id)
                    ==> after.exports[id].endpoint_id == cat.exports[id].endpoint_id
            &&& forall|id: u128| #[trigger]
                after.exports.contains_key(id) <==> exists|i: int|
                    0 <= i < incoming.len() && (#[trigger] incoming[i]).export_id == id
        }),
{
    rules::lemma_taken_over_well_filed(cat.exports, cat.next_endpoint, incoming);
    lemma_taken_over(cat.exports, cat.next_endpoint, incoming);
}

/// What a take-over without an error holds: the incoming identities, with the endpoint ids
/// that known identities had.
proof fn lemma_taken_over(known: Map<u128, ExportView>, next: u16, incoming: Seq<ExportView>)
    requires
        rules::well_filed(known),
        rules::taken_over(known, next, incoming).error is None,
    ensures
        ({
            let p = rules::taken_over(known, next, incoming);
            &&& forall|id: u128| #[trigger]
                p.exports.contains_key(id) && known.contains_key(id)
                    ==> p.exports[id].endpoint_id == known[id].endpoint_id
            &&& forall|id: u128| #[trigger]
                p.exports.contains_key(id) <==> exists|i: int|
                    0 <= i < incoming.len() && (#[trigger] incoming[i]).export_id == id
        }),
    decreases incoming.len(),
{
    if incoming.len() > 0 {
        let front = incoming.drop_last();
        let e = incoming.last();
        lemma_taken_over(known, next, front);
        let p = rules::taken_over(known, next, front);
        let q = rules::taken_over(known, next, incoming);
        assert forall|id: u128| #[trigger] q.exports.contains_key(id) <==> exists|i: int|
            0 <= i < incoming.len() && (#[trigger] incoming[i]).export_id == id by {
            if q.exports.contains_key(id) {
                if id == e.export_id {
                    assert(incoming[incoming.len() - 1].export_id == id);
                } else {
                    assert(p.exports.contains_key(id));
                    let i = choose|i: int|
                        0 <= i < front.len() && (#[trigger] front[i]).export_id == id;
                    assert(incoming[i].export_id == id);
                }
            }
            if exists|i: int| 0 <= i < incoming.len() && (#[trigger] incoming[i]).export_id == id {
                let i = choose|i: int|
                    0 <= i < incoming.len() && (#[trigger] incoming[i]).export_id == id;
                if i < front.len() {
                    assert(front[i].export_id == id);
                    assert(p.exports.contains_key(id));
                }
            }
        }
    }
}

/// A successful replacement gives no two exports the same endpoint id, where none shared
/// one before, and gives every new export an assignable id that no export had before.
pub proof fn law_replace_keeps_endpoints_distinct(
    cat: CatalogView,
    bridge_name: Seq<char>,
    incoming: Seq<ExportView>,
)
    requires
        rules::well_filed(cat.exports),
        distinct_endpoints(cat.exports),
        rules::replace_outcome(cat, bridge_name, incoming).1 is None,
    ensures
        ({
            let after = rules::replace_outcome(cat, bridge_name, incoming).0;
            &&& distinct_endpoints(after.exports)
            &&& forall|id: u128| #[trigger]
                after.exports.contains_key(id) && !cat.exports.contains_key(id) ==> {
                    &&& after.exports[id].endpoint_id is Some
                    &&& after.exports[id].endpoint_id->0 >= endpoint_ids::FIRST_ENDPOINT_ID
                    &&& !endpoint_ids::used_ids(cat.exports).contains(
                        after.exports[id].endpoint_id->0,
                    )
                }
        }),
{
    lemma_taken_over_distinct(cat.exports, cat.next_endpoint, incoming);
}

/// A new export that brings an assignable endpoint id keeps it, where neither the catalog
/// nor another incoming export before it holds that id.
pub proof fn law_replace_keeps_free_brought_id(
    cat: CatalogView,
    bridge_name: Seq<char>,
    before: Seq<ExportView>,
    e: ExportView,
)
    requires
        rules::replace_outcome(cat, bridge_name, before.push(e)).1 is None,
        !cat.exports.contains_key(e.export_id),
        e.endpoint_id is Some,
        e.endpoint_id->0 >= endpoint_ids::FIRST_ENDPOINT_ID,
        !rules::held_ids(
            cat.exports,
            rules::taken_over(cat.exports, cat.next_endpoint, before).exports,
            e.export_id,
        ).contains(e.endpoint_id->0),
    ensures
        ({
            let after = rules::replace_outcome(cat, bridge_name, before.push(e)).0;
            after.exports.contains_key(e.export_id) && after.exports[e.export_id] == e
        }),
{
    assert(before.push(e).drop_last() =~= before);
}

/// What a take-over without an error holds: endpoint ids that no two exports share, those of
/// known identities as they were, and those of new ones assignable and held by no known one.
proof fn lemma_taken_over_distinct(
    known: Map<u128, ExportView>,
    next: u16,
    incoming: Seq<ExportView>,
)
    requires
        rules::well_filed(known),
        distinct_endpoints(known),
        rules::taken_over(known, next, incoming).error is None,
    ensures
        ({
            let p = rules::taken_over(known, next, incoming);
            &&& distinct_endpoints(p.exports)
            &&& forall|id: u128| #[trigger]
                p.exports.contains_key(id) ==> if known.contains_key(id) {
                    p.exports[id].endpoint_id == known[id].endpoint_id
                } else {
                    &&& p.exports[id].endpoint_id is Some
                    &&& p.exports[id].endpoint_id->0 >= endpoint_ids::FIRST_ENDPOINT_ID
                    &&& !endpoint_ids::used_ids(known).contains(p.exports[id].endpoint_id->0)
                }
        }),
    decreases incoming.len(),
{
    if incoming.len() > 0 {
        let front = incoming.drop_last();
        let e = incoming.last();
        let id = e.export_id;
        lemma_taken_over_distinct(known, next, front);
        let p = rules::taken_over(known, next, front);
        let q = rules::taken_over(known, next, incoming);
        let used = endpoint_ids::used_ids(known);
        let others = p.exports.remove(id);
        let held = rules::held_ids(known, p.exports, id);
        if !known.contains_key(id) && rules::kept_endpoint(known, held, e) is None {
            endpoint_ids::lemma_next_free(p.next_endpoint, held);
        }
        let ep = q.exports[id].endpoint_id;
        assert forall|x: u128| #[trigger] p.exports.contains_key(x) && x
            != id implies p.exports[x].endpoint_id != ep by {
            assert(others.contains_key(x));
            if known.contains_key(id) {
                assert(used.contains(ep->0));
            } else if p.exports[x].endpoint_id is Some {
                assert(endpoint_ids::used_ids(others).contains(p.exports[x].endpoint_id->0));
            }
            if known.contains_key(x) && known.contains_key(id) {
                assert(known[x].endpoint_id != known[id].endpoint_id);
            }
        }
        assert forall|a: u128, b: u128|
            #![trigger q.exports.contains_key(a), q.exports.contains_key(b)]
            q.exports.contains_key(a) && q.exports.contains_key(b) && a != b
                && q.exports[a].endpoint_id is Some implies q.exports[a].endpoint_id
            != q.exports[b].endpoint_id by {
            assert(a == id || p.exports.contains_key(a));
            assert(b == id || p.exports.contains_key(b));
        }
    }
}

/// Loading what was saved gives the same exports back, and a next endpoint id that is not
/// before any of them.
pub proof fn law_saved_catalog_loads_back(
    exports: Map<u128, ExportView>,
    next: u16,
    saved: Seq<ExportView>,
)
    requires
        rules::well_filed(exports),
        rules::is_listing(exports, saved),
    ensures
        ({
            let p = rules::load_progress(next, saved);
            &&& p.error is None
            &&& p.exports == exports
            &&& p.next_endpoint >= next
            &&& forall|id: u128| #[trigger]
                exports.contains_key(id) ==> exports[id].endpoint_id->0 < p.next_endpoint
                    || p.next_endpoint == u16::MAX
        }),
{
    lemma_read_back_of_listing(exports, next, saved, saved.len() as int);
    let p = rules::read_back(next, saved);
    assert(saved.take(saved.len() as int) =~= saved);
    assert forall|id: u128| p.exports.contains_key(id) <==> exports.contains_key(id) by {
        if exports.contains_key(id) {
            let i = choose|i: int| 0 <= i < saved.len() && saved[i] == exports[id];
            assert(p.exports.contains_key(saved[i].export_id));
        }
    }
    assert forall|id: u128| #[trigger] exports.contains_key(id) implies p.exports[id] == exports[id]
        && (exports[id].endpoint_id->0 < p.next_endpoint || p.next_endpoint == u16::MAX) by {
        let i = choose|i: int| 0 <= i < saved.len() && saved[i] == exports[id];
        assert(p.exports.contains_key(saved[i].export_id));
    }
    assert(p.exports =~= exports);
}

proof fn lemma_read_back_of_listing(
    exports: Map<u128, ExportView>,
    next: u16,
    saved: Seq<ExportView>,
    n: int,
)
    requires
        rules::well_filed(exports),
        rules::is_listing(exports, saved),
        0 <= n <= saved.len(),
    ensures
        ({
            let p = rules::read_back(next, saved.take(n));
            &&& p.missing.len() == 0
            &&& p.next_endpoint >= next
            &&& forall|id: u128| #[trigger]
                p.exports.contains_key(id) ==> exports.contains_key(id) && p.exports[id]
                    == exports[id]
            &&& forall|i: int|
                0 <= i < n ==> {
                    &&& p.exports.contains_key((#[trigger] saved[i]).export_id)
                    &&& saved[i].endpoint_id->0 < p.next_endpoint || p.next_endpoint == u16::MAX
                }
        }),
    decreases n,
{
    if n > 0 {
        lemma_read_back_of_listing(exports, next, saved, n - 1);
        assert(saved.take(n).drop_last() =~= saved.take(n - 1));
        assert(saved.take(n).last() == saved[n - 1]);
        assert(exports.contains_key(saved[n - 1].export_id));
    }
}

/// Where the stored endpoint ids do not collide, the ids assigned on load do not collide
/// with them or with each other.
pub proof fn law_loaded_endpoints_are_distinct(next: u16, stored: Seq<ExportView>)
    requires
        distinct_endpoints(rules::read_back(next, stored).exports),
        rules::load_progress(next, stored).error is None,
    ensures
        distinct_endpoints(rules::load_progress(next, stored).exports),
{
    let p = rules::read_back(next, stored);
    rules::lemma_read_back(next, stored);
    lemma_assign_missing_distinct(p.exports, p.next_endpoint, p.missing);
}

proof fn lemma_assign_missing_distinct(
    exports: Map<u128, ExportView>,
    next: u16,
    missing: Seq<u128>,
)
    requires
        distinct_endpoints(exports),
        forall|k: int| 0 <= k < missing.len() ==> exports.contains_key(#[trigger] missing[k]),
        forall|id: u128| #[trigger] exports.contains_key(id) ==> exports[id].export_id == id,
    ensures
        distinct_endpoints(rules::assign_missing(exports, next, missing).exports),
    decreases missing.len(),
{
    if missing.len() > 0 {
        let front = missing.drop_last();
        assert forall|k: int| 0 <= k < front.len() implies exports.contains_key(
            #[trigger] front[k],
        ) by {
            assert(front[k] == missing[k]);
        }
        lemma_assign_missing_distinct(exports, next, front);
        rules::lemma_assign_missing(exports, next, front);
        let p = rules::assign_missing(exports, next, front);
        let q = rules::assign_missing(exports, next, missing);
        if p.error is None && !endpoint_ids::exhausted(p.exports) {
            law_assigned_id_is_free(p.exports, p.next_endpoint);
            assert forall|a: u128, b: u128|
                #![trigger q.exports.contains_key(a), q.exports.contains_key(b)]
                q.exports.contains_key(a) && q.exports.contains_key(b) && a != b
                    && q.exports[a].endpoint_id is Some implies q.exports[a].endpoint_id
                != q.exports[b].endpoint_id by {
                assert(a == missing.last() || p.exports.contains_key(a));
                assert(b == missing.last() || p.exports.contains_key(b));
            }
        }
    }
}

} // verus!
