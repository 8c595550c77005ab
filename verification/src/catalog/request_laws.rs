//! What each request makes of the catalog, field by field.
use super::error::{CatalogError, CatalogErrorView};
use super::model::{Export, ExportView, HaStateValue};
use super::requests::{CreateExport, PatchExport, PersistedConfig, PersistedExports};
use super::rules::CatalogView;
use super::{endpoint_ids, model, rules};
use vstd::prelude::*;

verus! {

/// Whether some export holds an endpoint id.
pub open spec fn holds(exports: Map<u128, ExportView>, ep: u16) -> bool {
    exists|id: u128| #[trigger] exports.contains_key(id) && exports[id].endpoint_id == Some(ep)
}

/// Whether two exports agree in everything but the endpoint id.
pub open spec fn same_but_endpoint(a: ExportView, b: ExportView) -> bool {
    &&& a.export_id == b.export_id
    &&& a.name == b.name
    &&& a.type_ == b.type_
    &&& a.primary_entity_id == b.primary_entity_id
    &&& a.linked == b.linked
    &&& a.area_id == b.area_id
    &&& a.enabled == b.enabled
}

/// The contents of an export are those of its fields.
pub proof fn law_export_contents(e: Export)
    ensures
        e@.export_id == e.export_id,
        e@.name == e.name@,
        e@.type_ == e.type_,
        e@.primary_entity_id == e.primary_entity_id@,
        e@.linked == e.linked@,
        e.area_id is None ==> e@.area_id is None,
        e.area_id is Some ==> e@.area_id == Some(e.area_id->0@),
        e@.enabled == e.enabled,
        e@.endpoint_id == e.endpoint_id,
{
}

/// The contents of an entity state are those of its fields.
pub proof fn law_state_contents(s: HaStateValue)
    ensures
        s@.entity_id == s.entity_id@,
        s@.state == s.state@,
        s@.attributes == s.attributes@,
{
}

/// The contents of a list of exports are those of its exports, in order.
pub proof fn law_list_contents(s: Seq<Export>)
    ensures
        model::export_views(s).len() == s.len(),
        forall|i: int| 0 <= i < s.len() ==> #[trigger] model::export_views(s)[i] == s[i]@,
{
}

/// A created export has every field that the request gives, and an identity and an endpoint
/// id besides; of the catalog, only that export and the next id to assign change.
pub proof fn law_create_takes_the_request(cat: CatalogView, id: u128, body: CreateExport)
    requires
        rules::create_outcome(cat, id, body).1 is Ok,
    ensures
        ({
            let after = rules::create_outcome(cat, id, body).0;
            let e = rules::create_outcome(cat, id, body).1->Ok_0;
            &&& e.export_id == id
            &&& e.name == body.name@
            &&& e.type_ == body.type_
            &&& e.primary_entity_id == body.primary_entity_id@
            &&& e.linked == body.linked@
            &&& body.area_id is None ==> e.area_id is None
            &&& body.area_id is Some ==> e.area_id == Some(body.area_id->0@)
            &&& e.enabled == body.enabled
            &&& after.exports == cat.exports.insert(id, e)
            &&& after.bridge_name == cat.bridge_name
            &&& after.data_dir == cat.data_dir
        }),
{
}

/// A created export gets the first endpoint id that no export holds, counting up from the
/// next one to assign and going on at 1 after 65535; counting goes on after it.
pub proof fn law_create_assigns_the_next_id(cat: CatalogView, id: u128, body: CreateExport)
    requires
        rules::create_outcome(cat, id, body).1 is Ok,
    ensures
        ({
            let after = rules::create_outcome(cat, id, body).0;
            let ep = rules::create_outcome(cat, id, body).1->Ok_0.endpoint_id->0;
            let start = if cat.next_endpoint == 0 {
                1u16
            } else {
                cat.next_endpoint
            };
            &&& rules::create_outcome(cat, id, body).1->Ok_0.endpoint_id is Some
            &&& 1 <= ep
            &&& !holds(cat.exports, ep)
            &&& forall|d: u16|
                start <= d && (d < ep || ep < start) ==> #[trigger] holds(cat.exports, d)
            &&& forall|d: u16| 1 <= d < ep && ep < start ==> #[trigger] holds(cat.exports, d)
            &&& after.next_endpoint == (ep + 1) % 65536
        }),
{
    let used = endpoint_ids::used_ids(cat.exports);
    endpoint_ids::lemma_next_free(cat.next_endpoint, used);
    let ep = endpoint_ids::next_free(cat.next_endpoint, used);
    assert forall|d: u16| used.contains(d) == #[trigger] holds(cat.exports, d) by {}
    let start = if cat.next_endpoint == 0 {
        1u16
    } else {
        cat.next_endpoint
    };
    assert forall|d: u16| start <= d && (d < ep || ep < start) implies #[trigger] holds(
        cat.exports,
        d,
    ) by {
        assert(endpoint_ids::steps_from(cat.next_endpoint, ep) > endpoint_ids::steps_from(
            cat.next_endpoint,
            d,
        ));
    }
    assert forall|d: u16| 1 <= d < ep && ep < start implies #[trigger] holds(cat.exports, d) by {
        assert(endpoint_ids::steps_from(cat.next_endpoint, ep) > endpoint_ids::steps_from(
            cat.next_endpoint,
            d,
        ));
    }
}

/// When a create request succeeds, and what it is answered where it does not: the name has
/// 1 to 64 characters, a primary entity is named, the identity is new, and some endpoint id
/// is left.
pub proof fn law_create_succeeds(cat: CatalogView, id: u128, body: CreateExport)
    requires
        !holds(cat.exports, 0),
    ensures
        ({
            let r = rules::create_outcome(cat, id, body).1;
            let name_ok = 1 <= body.name@.len() && body.name@.len() <= 64;
            let entity_ok = body.primary_entity_id@.len() > 0;
            let new = !cat.exports.contains_key(id);
            let left = exists|d: u16| d >= 1 && !#[trigger] holds(cat.exports, d);
            &&& r is Ok <==> name_ok && entity_ok && new && left
            &&& !name_ok ==> r == Err::<ExportView, CatalogErrorView>(
                CatalogErrorView::Invalid("name must be 1..=64 characters"@),
            )
            &&& name_ok && !entity_ok ==> r == Err::<ExportView, CatalogErrorView>(
                CatalogErrorView::Invalid("primary_entity_id must be non-empty"@),
            )
            &&& name_ok && entity_ok && !new ==> r == Err::<ExportView, CatalogErrorView>(
                CatalogErrorView::Invalid(
                    "export_id already exists: "@ + crate::ids::hyphenated_text(id),
                ),
            )
            &&& name_ok && entity_ok && new && !left ==> r == Err::<ExportView, CatalogErrorView>(
                CatalogErrorView::EndpointExhausted,
            )
        }),
{
    let used = endpoint_ids::used_ids(cat.exports);
    assert forall|d: u16| used.contains(d) == #[trigger] holds(cat.exports, d) by {}
    endpoint_ids::lemma_full_iff(used);
    if !endpoint_ids::full(used) {
        let d = choose|d: u16| d != 0 && !used.contains(d);
        assert(!holds(cat.exports, d));
    }
}

/// A patched export has every field that the request names as the request gives it, and
/// every other field as before; the answer is the stored export, and nothing else changes.
pub proof fn law_patch_takes_the_request(cat: CatalogView, id: u128, body: PatchExport)
    requires
        rules::patch_outcome(cat, id, body).1 is Ok,
    ensures
        ({
            let after = rules::patch_outcome(cat, id, body).0;
            let was = cat.exports[id];
            let e = rules::patch_outcome(cat, id, body).1->Ok_0;
            &&& cat.exports.contains_key(id)
            &&& after.exports == cat.exports.insert(id, e)
            &&& after.bridge_name == cat.bridge_name
            &&& after.data_dir == cat.data_dir
            &&& after.next_endpoint == cat.next_endpoint
            &&& e.export_id == was.export_id
            &&& e.endpoint_id == was.endpoint_id
            &&& body.name is Some ==> e.name == body.name->0@
            &&& body.name is None ==> e.name == was.name
            &&& body.type_ is Some ==> e.type_ == body.type_->0
            &&& body.type_ is None ==> e.type_ == was.type_
            &&& body.primary_entity_id is Some ==> e.primary_entity_id
                == body.primary_entity_id->0@
            &&& body.primary_entity_id is None ==> e.primary_entity_id == was.primary_entity_id
            &&& body.linked is Some ==> e.linked == body.linked->0@
            &&& body.linked is None ==> e.linked == was.linked
            &&& body.area_id == Some(None::<String>) ==> e.area_id is None
            &&& body.area_id is Some && body.area_id->0 is Some ==> e.area_id == Some(
                body.area_id->0->0@,
            )
            &&& body.area_id is None ==> e.area_id == was.area_id
            &&& body.enabled is Some ==> e.enabled == body.enabled->0
            &&& body.enabled is None ==> e.enabled == was.enabled
        }),
{
}

/// When a patch succeeds, what it is answered where it does not, and what a refused one
/// leaves behind: nothing, but for the new name and type where only the primary entity is
/// refused.
pub proof fn law_patch_succeeds(cat: CatalogView, id: u128, body: PatchExport)
    ensures
        ({
            let (after, r) = rules::patch_outcome(cat, id, body);
            let known = cat.exports.contains_key(id);
            let name_ok = body.name is None || (1 <= body.name->0@.len() && body.name->0@.len()
                <= 64);
            let entity_ok = body.primary_entity_id is None || body.primary_entity_id->0@.len() > 0;
            &&& r is Ok <==> known && name_ok && entity_ok
            &&& !known ==> r == Err::<ExportView, CatalogErrorView>(CatalogErrorView::NotFound(id))
                && after == cat
            &&& known && !name_ok ==> r == Err::<ExportView, CatalogErrorView>(
                CatalogErrorView::Invalid("name must be 1..=64 characters"@),
            ) && after == cat
            &&& known && name_ok && !entity_ok ==> {
                let was = cat.exports[id];
                &&& r == Err::<ExportView, CatalogErrorView>(
                    CatalogErrorView::Invalid("primary_entity_id must be non-empty"@),
                )
                &&& after.exports == cat.exports.insert(id, after.exports[id])
                &&& after.bridge_name == cat.bridge_name
                &&& after.data_dir == cat.data_dir
                &&& after.next_endpoint == cat.next_endpoint
                &&& after.exports[id].name == (if body.name is Some {
                    body.name->0@
                } else {
                    was.name
                })
                &&& after.exports[id].type_ == (if body.type_ is Some {
                    body.type_->0
                } else {
                    was.type_
                })
                &&& after.exports[id].export_id == was.export_id
                &&& after.exports[id].endpoint_id == was.endpoint_id
                &&& after.exports[id].primary_entity_id == was.primary_entity_id
                &&& after.exports[id].linked == was.linked
                &&& after.exports[id].area_id == was.area_id
                &&& after.exports[id].enabled == was.enabled
            }
        }),
{
    let (after, r) = rules::patch_outcome(cat, id, body);
    if r is Err && after != cat {
        assert(after.exports =~= cat.exports.insert(id, after.exports[id]));
    }
}

/// A delete answers with the export that was stored and takes out that one alone; without
/// such an export it is answered so, and changes nothing.
pub proof fn law_delete_takes_one_out(cat: CatalogView, id: u128)
    ensures
        ({
            let (after, r) = rules::delete_outcome(cat, id);
            &&& r is Ok <==> cat.exports.contains_key(id)
            &&& r is Ok ==> r->Ok_0 == cat.exports[id]
            &&& r is Err ==> r->Err_0 == CatalogErrorView::NotFound(id)
            &&& !after.exports.contains_key(id)
            &&& forall|x: u128|
                x != id ==> #[trigger] after.exports.contains_key(x) == cat.exports.contains_key(x)
            &&& forall|x: u128| #[trigger]
                after.exports.contains_key(x) ==> after.exports[x] == cat.exports[x]
            &&& after.bridge_name == cat.bridge_name
            &&& after.data_dir == cat.data_dir
            &&& after.next_endpoint == cat.next_endpoint
        }),
{
}

/// Whether entry `i` is the last of its identity.
pub open spec fn last_of_its_identity(incoming: Seq<ExportView>, i: int) -> bool {
    &&& 0 <= i < incoming.len()
    &&& forall|j: int|
        i < j < incoming.len() ==> (#[trigger] incoming[j]).export_id != incoming[i].export_id
}

/// After a successful replacement the catalog holds the last incoming export of each
/// identity, in every field but the endpoint id, whether the identity was known or not; and
/// the new bridge name.
pub proof fn law_replace_takes_the_incoming(
    cat: CatalogView,
    bridge_name: Seq<char>,
    incoming: Seq<ExportView>,
    i: int,
)
    requires
        rules::replace_outcome(cat, bridge_name, incoming).1 is None,
        last_of_its_identity(incoming, i),
    ensures
        ({
            let after = rules::replace_outcome(cat, bridge_name, incoming).0;
            &&& after.exports.contains_key(incoming[i].export_id)
            &&& same_but_endpoint(after.exports[incoming[i].export_id], incoming[i])
            &&& after.bridge_name == bridge_name
            &&& after.data_dir == cat.data_dir
        }),
{
    lemma_takes_the_incoming(cat.exports, cat.next_endpoint, incoming, i);
}

proof fn lemma_takes_the_incoming(
    known: Map<u128, ExportView>,
    next: u16,
    incoming: Seq<ExportView>,
    i: int,
)
    requires
        rules::taken_over(known, next, incoming).error is None,
        last_of_its_identity(incoming, i),
    ensures
        ({
            let p = rules::taken_over(known, next, incoming);
            &&& p.exports.contains_key(incoming[i].export_id)
            &&& same_but_endpoint(p.exports[incoming[i].export_id], incoming[i])
        }),
    decreases incoming.len(),
{
    let front = incoming.drop_last();
    if i < incoming.len() - 1 {
        assert(incoming[incoming.len() - 1].export_id != incoming[i].export_id);
        assert forall|j: int| i < j < front.len() implies (#[trigger] front[j]).export_id
            != front[i].export_id by {
            assert(front[j] == incoming[j]);
        }
        lemma_takes_the_incoming(known, next, front, i);
    }
}

/// A successful replacement holds nothing but incoming identities: an export that is not
/// listed any more is gone.
pub proof fn law_replace_drops_the_rest(
    cat: CatalogView,
    bridge_name: Seq<char>,
    incoming: Seq<ExportView>,
    id: u128,
)
    requires
        rules::replace_outcome(cat, bridge_name, incoming).1 is None,
        forall|i: int| 0 <= i < incoming.len() ==> (#[trigger] incoming[i]).export_id != id,
    ensures
        !rules::replace_outcome(cat, bridge_name, incoming).0.exports.contains_key(id),
{
    lemma_drops_the_rest(cat.exports, cat.next_endpoint, incoming, id);
}

proof fn lemma_drops_the_rest(
    known: Map<u128, ExportView>,
    next: u16,
    incoming: Seq<ExportView>,
    id: u128,
)
    requires
        forall|i: int| 0 <= i < incoming.len() ==> (#[trigger] incoming[i]).export_id != id,
    ensures
        !rules::taken_over(known, next, incoming).exports.contains_key(id),
    decreases incoming.len(),
{
    if incoming.len() > 0 {
        let front = incoming.drop_last();
        assert(incoming[incoming.len() - 1].export_id != id);
        assert forall|i: int| 0 <= i < front.len() implies (#[trigger] front[i]).export_id != id by {
            assert(front[i] == incoming[i]);
        }
        lemma_drops_the_rest(known, next, front, id);
    }
}

/// Whether an incoming export is acceptable: a name of 1 to 64 characters, and a primary
/// entity.
pub open spec fn acceptable(e: ExportView) -> bool {
    1 <= e.name.len() && e.name.len() <= 64 && e.primary_entity_id.len() > 0
}

/// When a replacement fails, and what it leaves: a bridge name that has not 1 to 32
/// characters changes nothing; an export that is not acceptable, or endpoint ids that run
/// out, leave every export as it was. Where all is acceptable only the ids can be missing,
/// and nothing but acceptable exports is ever taken over.
pub proof fn law_replace_succeeds(
    cat: CatalogView,
    bridge_name: Seq<char>,
    incoming: Seq<ExportView>,
)
    ensures
        ({
            let (after, r) = rules::replace_outcome(cat, bridge_name, incoming);
            let name_ok = 1 <= bridge_name.len() && bridge_name.len() <= 32;
            let all_ok = forall|i: int| 0 <= i < incoming.len() ==> #[trigger] acceptable(incoming[i]);
            &&& !name_ok ==> after == cat && r == Some(
                CatalogErrorView::Invalid("bridge_name must be 1..=32 characters"@),
            )
            &&& name_ok ==> after.bridge_name == bridge_name
            &&& r is Some ==> after.exports == cat.exports && after.data_dir == cat.data_dir
            &&& r is None ==> name_ok && all_ok
            &&& r is Some && name_ok && all_ok ==> r == Some(CatalogErrorView::EndpointExhausted)
            &&& r is Some && name_ok && !all_ok ==> r == Some(CatalogErrorView::EndpointExhausted)
                || r == Some(CatalogErrorView::Invalid("name must be 1..=64 characters"@)) || r
                == Some(CatalogErrorView::Invalid("primary_entity_id must be non-empty"@))
        }),
{
    lemma_replace_succeeds(cat.exports, cat.next_endpoint, incoming);
}

proof fn lemma_replace_succeeds(
    known: Map<u128, ExportView>,
    next: u16,
    incoming: Seq<ExportView>,
)
    ensures
        ({
            let p = rules::taken_over(known, next, incoming);
            let all_ok = forall|i: int| 0 <= i < incoming.len() ==> #[trigger] acceptable(incoming[i]);
            &&& p.error is None ==> all_ok
            &&& p.error is Some && all_ok ==> p.error == Some(CatalogErrorView::EndpointExhausted)
            &&& p.error is Some && !all_ok ==> p.error == Some(CatalogErrorView::EndpointExhausted)
                || p.error == Some(CatalogErrorView::Invalid("name must be 1..=64 characters"@))
                || p.error == Some(
                CatalogErrorView::Invalid("primary_entity_id must be non-empty"@),
            )
        }),
    decreases incoming.len(),
{
    if incoming.len() > 0 {
        let front = incoming.drop_last();
        lemma_replace_succeeds(known, next, front);
        let all_front = forall|i: int| 0 <= i < front.len() ==> #[trigger] acceptable(front[i]);
        let all = forall|i: int| 0 <= i < incoming.len() ==> #[trigger] acceptable(incoming[i]);
        if all {
            assert forall|i: int| 0 <= i < front.len() implies #[trigger] acceptable(front[i]) by {
                assert(acceptable(incoming[i]));
            }
            assert(acceptable(incoming[incoming.len() - 1]));
        }
        if all_front && acceptable(incoming.last()) {
            assert forall|i: int| 0 <= i < incoming.len() implies #[trigger] acceptable(
                incoming[i],
            ) by {
                if i < front.len() {
                    assert(acceptable(front[i]));
                }
            }
        }
    }
}

/// A new export that brings no usable endpoint id gets the first id that neither a known
/// export nor another incoming one before it holds, counting up from where the assignment
/// stands and going on at 1 after 65535.
pub proof fn law_replace_assigns_the_next_id(
    cat: CatalogView,
    bridge_name: Seq<char>,
    before: Seq<ExportView>,
    e: ExportView,
)
    requires
        rules::replace_outcome(cat, bridge_name, before.push(e)).1 is None,
        !cat.exports.contains_key(e.export_id),
        ({
            let taken = rules::replace_outcome(cat, bridge_name, before).0.exports;
            e.endpoint_id is None || e.endpoint_id->0 == 0 || holds(cat.exports, e.endpoint_id->0)
                || holds(taken.remove(e.export_id), e.endpoint_id->0)
        }),
    ensures
        ({
            let mid = rules::replace_outcome(cat, bridge_name, before).0;
            let after = rules::replace_outcome(cat, bridge_name, before.push(e)).0;
            let taken = mid.exports.remove(e.export_id);
            let ep = after.exports[e.export_id].endpoint_id->0;
            let start = if mid.next_endpoint == 0 {
                1u16
            } else {
                mid.next_endpoint
            };
            &&& after.exports[e.export_id].endpoint_id is Some
            &&& 1 <= ep
            &&& !holds(cat.exports, ep) && !holds(taken, ep)
            &&& forall|d: u16|
                start <= d && (d < ep || ep < start) ==> #[trigger] holds(cat.exports, d) || holds(
                    taken,
                    d,
                )
            &&& forall|d: u16|
                1 <= d < ep && ep < start ==> #[trigger] holds(cat.exports, d) || holds(taken, d)
            &&& after.next_endpoint == (ep + 1) % 65536
        }),
{
    assert(before.push(e).drop_last() =~= before);
    let p = rules::taken_over(cat.exports, cat.next_endpoint, before);
    let taken = p.exports.remove(e.export_id);
    let held = rules::held_ids(cat.exports, p.exports, e.export_id);
    assert forall|d: u16| endpoint_ids::used_ids(cat.exports).contains(d) == #[trigger] holds(
        cat.exports,
        d,
    ) by {}
    assert forall|d: u16| endpoint_ids::used_ids(taken).contains(d) == #[trigger] holds(
        taken,
        d,
    ) by {}
    endpoint_ids::lemma_next_free(p.next_endpoint, held);
    let ep = endpoint_ids::next_free(p.next_endpoint, held);
    let start = if p.next_endpoint == 0 {
        1u16
    } else {
        p.next_endpoint
    };
    assert forall|d: u16|
        (start <= d && (d < ep || ep < start)) || (1 <= d < ep && ep < start) implies #[trigger] holds(
        cat.exports,
        d,
    ) || holds(taken, d) by {
        assert(endpoint_ids::steps_from(p.next_endpoint, ep) > endpoint_ids::steps_from(
            p.next_endpoint,
            d,
        ));
    }
}

/// A listing is the exports by increasing identity, each once.
pub proof fn law_listing(exports: Map<u128, ExportView>, s: Seq<ExportView>)
    requires
        rules::well_filed(exports),
        rules::is_listing(exports, s),
    ensures
        forall|i: int, j: int|
            0 <= i < j < s.len() ==> (#[trigger] s[i]).export_id < (#[trigger] s[j]).export_id,
        forall|e: ExportView| #[trigger]
            s.contains(e) <==> exports.contains_key(e.export_id) && exports[e.export_id] == e,
{
    assert forall|e: ExportView| #[trigger] s.contains(e) <==> exports.contains_key(e.export_id)
        && exports[e.export_id] == e by {
        if exports.contains_key(e.export_id) && exports[e.export_id] == e {
            let i = choose|i: int| 0 <= i < s.len() && s[i] == exports[e.export_id];
            assert(s[i] == e);
        }
    }
}

/// A catalog is well filed exactly where every export carries the identity under which it is
/// found, and an endpoint id.
pub proof fn law_well_filed(exports: Map<u128, ExportView>)
    ensures
        rules::well_filed(exports) <==> forall|id: u128| #[trigger]
            exports.contains_key(id) ==> exports[id].export_id == id
                && exports[id].endpoint_id is Some,
{
}

/// The enabled exports are those that are stored and enabled.
pub proof fn law_enabled_exports(exports: Map<u128, ExportView>, id: u128)
    ensures
        rules::enabled_ids(exports).contains(id) <==> exports.contains_key(id)
            && exports[id].enabled,
{
}

/// A loaded catalog holds the last stored export of each identity, in every field but the
/// endpoint id, and that too where every stored export of the identity has one.
pub proof fn law_load_takes_the_stored(next: u16, stored: Seq<ExportView>, i: int)
    requires
        rules::load_progress(next, stored).error is None,
        last_of_its_identity(stored, i),
    ensures
        ({
            let p = rules::load_progress(next, stored);
            let id = stored[i].export_id;
            &&& p.exports.contains_key(id)
            &&& same_but_endpoint(p.exports[id], stored[i])
            &&& p.exports[id].endpoint_id is Some
            &&& (forall|j: int|
                0 <= j < stored.len() && (#[trigger] stored[j]).export_id == id
                    ==> stored[j].endpoint_id is Some) ==> p.exports[id].endpoint_id
                == stored[i].endpoint_id
        }),
{
    let id = stored[i].export_id;
    let r = rules::read_back(next, stored);
    rules::lemma_read_back(next, stored);
    rules::lemma_assign_missing(r.exports, r.next_endpoint, r.missing);
    rules::lemma_loaded_well_filed(next, stored);
    lemma_read_back_last(next, stored, i);
    lemma_assign_keeps_fields(r.exports, r.next_endpoint, r.missing, id);
}

proof fn lemma_read_back_last(next: u16, stored: Seq<ExportView>, i: int)
    requires
        last_of_its_identity(stored, i),
    ensures
        ({
            let r = rules::read_back(next, stored);
            let id = stored[i].export_id;
            &&& r.exports.contains_key(id)
            &&& r.exports[id] == stored[i]
            &&& (forall|j: int|
                0 <= j < stored.len() && (#[trigger] stored[j]).export_id == id
                    ==> stored[j].endpoint_id is Some) ==> !r.missing.contains(id)
        }),
    decreases stored.len(),
{
    let id = stored[i].export_id;
    let front = stored.drop_last();
    let r = rules::read_back(next, stored);
    if i < stored.len() - 1 {
        assert(stored[stored.len() - 1].export_id != id);
        assert forall|j: int| i < j < front.len() implies (#[trigger] front[j]).export_id
            != front[i].export_id by {
            assert(front[j] == stored[j]);
        }
        lemma_read_back_last(next, front, i);
    }
    if forall|j: int|
        0 <= j < stored.len() && (#[trigger] stored[j]).export_id == id
            ==> stored[j].endpoint_id is Some {
        lemma_not_missing(next, stored, id);
    }
}

proof fn lemma_not_missing(next: u16, stored: Seq<ExportView>, id: u128)
    requires
        forall|j: int|
            0 <= j < stored.len() && (#[trigger] stored[j]).export_id == id
                ==> stored[j].endpoint_id is Some,
    ensures
        !rules::read_back(next, stored).missing.contains(id),
    decreases stored.len(),
{
    if stored.len() > 0 {
        let front = stored.drop_last();
        let r = rules::read_back(next, stored);
        let f = rules::read_back(next, front);
        assert forall|j: int| 0 <= j < front.len() && (#[trigger] front[j]).export_id
            == id implies front[j].endpoint_id is Some by {
            assert(front[j] == stored[j]);
        }
        lemma_not_missing(next, front, id);
        assert(stored[stored.len() - 1].export_id == id ==> stored.last().endpoint_id is Some);
        if r.missing.contains(id) {
            let k = choose|k: int| 0 <= k < r.missing.len() && r.missing[k] == id;
            if k < f.missing.len() {
                assert(f.missing[k] == id);
            }
        }
    }
}

proof fn lemma_assign_keeps_fields(
    exports: Map<u128, ExportView>,
    next: u16,
    missing: Seq<u128>,
    id: u128,
)
    requires
        exports.contains_key(id),
    ensures
        ({
            let p = rules::assign_missing(exports, next, missing);
            &&& p.exports.contains_key(id)
            &&& same_but_endpoint(p.exports[id], exports[id])
            &&& !missing.contains(id) ==> p.exports[id] == exports[id]
        }),
    decreases missing.len(),
{
    if missing.len() > 0 {
        let front = missing.drop_last();
        lemma_assign_keeps_fields(exports, next, front, id);
        if !missing.contains(id) {
            assert(missing[missing.len() - 1] != id);
            if front.contains(id) {
                let k = choose|k: int| 0 <= k < front.len() && front[k] == id;
                assert(missing[k] == id);
            }
        }
    }
}

/// A loaded catalog holds nothing but stored identities.
pub proof fn law_load_adds_nothing(next: u16, stored: Seq<ExportView>, id: u128)
    requires
        forall|i: int| 0 <= i < stored.len() ==> (#[trigger] stored[i]).export_id != id,
    ensures
        !rules::load_progress(next, stored).exports.contains_key(id),
{
    let r = rules::read_back(next, stored);
    rules::lemma_read_back(next, stored);
    rules::lemma_assign_missing(r.exports, r.next_endpoint, r.missing);
    lemma_read_back_adds_nothing(next, stored, id);
}

proof fn lemma_read_back_adds_nothing(next: u16, stored: Seq<ExportView>, id: u128)
    requires
        forall|i: int| 0 <= i < stored.len() ==> (#[trigger] stored[i]).export_id != id,
    ensures
        !rules::read_back(next, stored).exports.contains_key(id),
    decreases stored.len(),
{
    if stored.len() > 0 {
        let front = stored.drop_last();
        assert(stored[stored.len() - 1].export_id != id);
        assert forall|i: int| 0 <= i < front.len() implies (#[trigger] front[i]).export_id != id by {
            assert(front[i] == stored[i]);
        }
        lemma_read_back_adds_nothing(next, front, id);
    }
}

/// A stored configuration gives its next endpoint id, but never the root; without one the
/// assignment starts at 1. Without an export file nothing is stored.
pub proof fn law_stored_configuration(config: Option<PersistedConfig>)
    ensures
        config is None ==> rules::stored_next(config) == 1,
        config is Some && config->0.next_endpoint == 0 ==> rules::stored_next(config) == 1,
        config is Some && config->0.next_endpoint > 0 ==> rules::stored_next(config)
            == config->0.next_endpoint,
        rules::stored_exports(None).len() == 0,
{
}

/// A replacement takes the exports over one by one. One more export leaves those before it
/// as they are. A known identity keeps its endpoint id, and a new one keeps the id that it
/// brings where that is not 0 and neither a known export nor another one before it holds it;
/// neither moves the next id to assign. Any other fails only where no id is left.
pub proof fn law_replace_takes_one_more(
    cat: CatalogView,
    bridge_name: Seq<char>,
    before: Seq<ExportView>,
    e: ExportView,
)
    requires
        rules::well_filed(cat.exports),
        rules::replace_outcome(cat, bridge_name, before).1 is None,
    ensures
        ({
            let mid = rules::replace_outcome(cat, bridge_name, before).0;
            let (after, r) = rules::replace_outcome(cat, bridge_name, before.push(e));
            let others = mid.exports.remove(e.export_id);
            let known = cat.exports.contains_key(e.export_id);
            let brings = e.endpoint_id is Some && e.endpoint_id->0 != 0 && !holds(
                cat.exports,
                e.endpoint_id->0,
            ) && !holds(others, e.endpoint_id->0);
            let left = exists|d: u16|
                d >= 1 && !#[trigger] holds(cat.exports, d) && !holds(others, d);
            let name_ok = 1 <= e.name.len() && e.name.len() <= 64;
            &&& r is None ==> after.exports == mid.exports.insert(
                e.export_id,
                after.exports[e.export_id],
            )
            &&& !name_ok ==> r == Some(CatalogErrorView::Invalid("name must be 1..=64 characters"@))
            &&& name_ok && e.primary_entity_id.len() == 0 ==> r == Some(
                CatalogErrorView::Invalid("primary_entity_id must be non-empty"@),
            )
            &&& acceptable(e) && known ==> r is None && after.exports[e.export_id].endpoint_id
                == cat.exports[e.export_id].endpoint_id
            &&& acceptable(e) && !known && brings ==> r is None
                && after.exports[e.export_id].endpoint_id == e.endpoint_id
            &&& acceptable(e) && !known && !brings && !holds(cat.exports, 0) && !holds(others, 0)
                ==> (r is None <==> left)
            &&& r is Some || known || brings ==> after.next_endpoint == mid.next_endpoint
        }),
{
    assert(before.push(e).drop_last() =~= before);
    let p = rules::taken_over(cat.exports, cat.next_endpoint, before);
    let others = p.exports.remove(e.export_id);
    let held = rules::held_ids(cat.exports, p.exports, e.export_id);
    assert forall|d: u16| endpoint_ids::used_ids(cat.exports).contains(d) == #[trigger] holds(
        cat.exports,
        d,
    ) by {}
    assert forall|d: u16| endpoint_ids::used_ids(others).contains(d) == #[trigger] holds(
        others,
        d,
    ) by {}
    if !holds(cat.exports, 0) && !holds(others, 0) {
        assert(endpoint_ids::used_ids(others).contains(0) == holds(others, 0));
        endpoint_ids::lemma_full_iff(held);
        if !endpoint_ids::full(held) {
            let d = choose|d: u16| d != 0 && !held.contains(d);
            assert(!holds(cat.exports, d) && !holds(others, d));
        } else {
            assert forall|d: u16| d >= 1 && !#[trigger] holds(cat.exports, d) implies holds(
                others,
                d,
            ) by {
                assert(held.contains(d));
            }
        }
    }
}

/// Replacing by nothing leaves no export, and the next id to assign as it was.
pub proof fn law_replace_by_nothing(cat: CatalogView, bridge_name: Seq<char>)
    requires
        1 <= bridge_name.len() <= 32,
    ensures
        ({
            let (after, r) = rules::replace_outcome(cat, bridge_name, Seq::empty());
            &&& r is None
            &&& after.exports.dom() == Set::<u128>::empty()
            &&& after.next_endpoint == cat.next_endpoint
        }),
{
}

/// A failed replacement goes on failing, whatever comes after.
pub proof fn law_replace_fails_for_good(
    cat: CatalogView,
    bridge_name: Seq<char>,
    before: Seq<ExportView>,
    e: ExportView,
)
    requires
        rules::replace_outcome(cat, bridge_name, before).1 is Some,
    ensures
        rules::replace_outcome(cat, bridge_name, before.push(e)) == rules::replace_outcome(
            cat,
            bridge_name,
            before,
        ),
{
    assert(before.push(e).drop_last() =~= before);
}

/// After a load that had no id to assign, the next id to assign is not below the stored one
/// and is past every stored id, the last id counting as past itself; and it is no greater
/// than that takes.
pub proof fn law_load_next_id(next: u16, stored: Seq<ExportView>)
    requires
        forall|i: int| 0 <= i < stored.len() ==> (#[trigger] stored[i]).endpoint_id is Some,
    ensures
        ({
            let p = rules::load_progress(next, stored);
            &&& p.error is None
            &&& p.next_endpoint >= next
            &&& forall|i: int|
                0 <= i < stored.len() ==> (#[trigger] stored[i]).endpoint_id->0 < p.next_endpoint
                    || p.next_endpoint == 65535
            &&& p.next_endpoint == next || exists|i: int|
                0 <= i < stored.len() && (p.next_endpoint == (
                #[trigger] stored[i]).endpoint_id->0 + 1 || stored[i].endpoint_id->0 == 65535)
        }),
{
    lemma_read_back_next(next, stored);
    let r = rules::read_back(next, stored);
    if r.missing.len() > 0 {
        let id = r.missing[0];
        assert forall|j: int|
            0 <= j < stored.len() && (#[trigger] stored[j]).export_id == id
                implies stored[j].endpoint_id is Some by {}
        lemma_not_missing(next, stored, id);
        assert(r.missing.contains(id));
    }
}

proof fn lemma_read_back_next(next: u16, stored: Seq<ExportView>)
    ensures
        ({
            let n = rules::read_back(next, stored).next_endpoint;
            &&& n >= next
            &&& forall|i: int|
                0 <= i < stored.len() && (#[trigger] stored[i]).endpoint_id is Some
                    ==> stored[i].endpoint_id->0 < n || n == 65535
            &&& n == next || exists|i: int|
                0 <= i < stored.len() && (#[trigger] stored[i]).endpoint_id is Some && (n
                    == stored[i].endpoint_id->0 + 1 || stored[i].endpoint_id->0 == 65535)
        }),
    decreases stored.len(),
{
    if stored.len() > 0 {
        let front = stored.drop_last();
        lemma_read_back_next(next, front);
        let n = rules::read_back(next, stored).next_endpoint;
        let m = rules::read_back(next, front).next_endpoint;
        assert forall|i: int| 0 <= i < stored.len() && (#[trigger] stored[i]).endpoint_id is Some
            implies stored[i].endpoint_id->0 < n || n == 65535 by {
            if i < front.len() {
                assert(front[i] == stored[i]);
            }
        }
        if n == m {
            if n != next {
                let i = choose|i: int|
                    0 <= i < front.len() && (#[trigger] front[i]).endpoint_id is Some && (n
                        == front[i].endpoint_id->0 + 1 || front[i].endpoint_id->0 == 65535);
                assert(stored[i] == front[i]);
            }
        } else {
            assert(stored[stored.len() - 1].endpoint_id is Some);
        }
    }
}

/// A stored export that misses its endpoint id, alone in that, gets the first id that is not
/// below the stored next one and past every stored id.
pub proof fn law_load_assigns_the_next_id(next: u16, stored: Seq<ExportView>, i: int)
    requires
        1 <= next,
        next <= 65534,
        0 <= i < stored.len(),
        stored[i].endpoint_id is None,
        forall|j: int|
            0 <= j < stored.len() && j != i ==> (#[trigger] stored[j]).endpoint_id is Some
                && stored[j].endpoint_id->0 <= 65533 && stored[j].export_id != stored[i].export_id,
    ensures
        ({
            let p = rules::load_progress(next, stored);
            let ep = p.exports[stored[i].export_id].endpoint_id->0;
            &&& p.error is None
            &&& p.exports[stored[i].export_id].endpoint_id is Some
            &&& ep >= next
            &&& forall|j: int|
                0 <= j < stored.len() && j != i ==> (#[trigger] stored[j]).endpoint_id->0 < ep
            &&& ep == next || exists|j: int|
                0 <= j < stored.len() && j != i && ep == (#[trigger] stored[j]).endpoint_id->0 + 1
            &&& p.next_endpoint == ep + 1
        }),
{
    let id = stored[i].export_id;
    let r = rules::read_back(next, stored);
    lemma_read_back_next(next, stored);
    lemma_read_back_missing(next, stored, i);
    lemma_read_back_origin(next, stored);
    let n = r.next_endpoint;
    assert(n <= 65534) by {
        if n != next {
            let j = choose|j: int|
                0 <= j < stored.len() && (#[trigger] stored[j]).endpoint_id is Some && (n
                    == stored[j].endpoint_id->0 + 1 || stored[j].endpoint_id->0 == 65535);
            assert(j != i);
        }
    }
    let used = endpoint_ids::used_ids(r.exports);
    assert forall|d: u16| #[trigger] used.contains(d) implies d < n by {
        let x = choose|x: u128| #[trigger]
            r.exports.contains_key(x) && r.exports[x].endpoint_id == Some(d);
        let j = choose|j: int| 0 <= j < stored.len() && #[trigger] stored[j] == r.exports[x];
        assert(stored[j].endpoint_id == Some(d));
    }
    assert(!used.contains(n));
    endpoint_ids::lemma_some_id_is_left(used, 65535);
    assert(endpoint_ids::is_next_free(n, used, n)) by {
        assert(endpoint_ids::steps_from(n, n) == 0);
    }
    endpoint_ids::lemma_next_free(n, used);
    endpoint_ids::lemma_next_free_unique(n, used, n, endpoint_ids::next_free(n, used));
    assert(r.missing.drop_last() =~= Seq::<u128>::empty());
    reveal_with_fuel(rules::assign_missing, 2);
    if n != next {
        let j = choose|j: int|
            0 <= j < stored.len() && (#[trigger] stored[j]).endpoint_id is Some && (n
                == stored[j].endpoint_id->0 + 1 || stored[j].endpoint_id->0 == 65535);
        assert(j != i);
    }
}

proof fn lemma_read_back_missing(next: u16, stored: Seq<ExportView>, i: int)
    requires
        0 <= i < stored.len(),
        stored[i].endpoint_id is None,
        forall|j: int|
            0 <= j < stored.len() && j != i ==> (#[trigger] stored[j]).endpoint_id is Some,
    ensures
        rules::read_back(next, stored).missing == seq![stored[i].export_id],
    decreases stored.len(),
{
    let front = stored.drop_last();
    assert forall|j: int| 0 <= j < front.len() && j != i implies (
    #[trigger] front[j]).endpoint_id is Some by {
        assert(front[j] == stored[j]);
    }
    if i < front.len() {
        assert(stored[stored.len() - 1].endpoint_id is Some);
        lemma_read_back_missing(next, front, i);
    } else {
        let r = rules::read_back(next, front);
        if r.missing.len() > 0 {
            let id = r.missing[0];
            lemma_not_missing(next, front, id);
            assert(r.missing.contains(id));
        }
        assert(rules::read_back(next, stored).missing =~= seq![stored[i].export_id]);
    }
}

proof fn lemma_read_back_origin(next: u16, stored: Seq<ExportView>)
    ensures
        forall|x: u128| #[trigger]
            rules::read_back(next, stored).exports.contains_key(x) ==> exists|j: int|
                0 <= j < stored.len() && #[trigger] stored[j] == rules::read_back(
                    next,
                    stored,
                ).exports[x],
    decreases stored.len(),
{
    if stored.len() > 0 {
        let front = stored.drop_last();
        lemma_read_back_origin(next, front);
        let r = rules::read_back(next, stored);
        let f = rules::read_back(next, front);
        assert forall|x: u128| #[trigger] r.exports.contains_key(x) implies exists|j: int|
            0 <= j < stored.len() && #[trigger] stored[j] == r.exports[x] by {
            if x == stored.last().export_id {
                assert(stored[stored.len() - 1] == r.exports[x]);
            } else {
                assert(f.exports.contains_key(x));
                let j = choose|j: int| 0 <= j < front.len() && #[trigger] front[j] == f.exports[x];
                assert(stored[j] == r.exports[x]);
            }
        }
    }
}

/// The exports of an export file are all of them, in order.
pub proof fn law_stored_exports(file: PersistedExports)
    ensures
        rules::stored_exports(Some(file)).len() == file.exports@.len(),
        forall|i: int|
            0 <= i < file.exports@.len() ==> #[trigger] rules::stored_exports(Some(file))[i]
                == file.exports@[i]@,
{
}

/// What an operation gives is what it is judged by: the export, or the error with its text.
pub proof fn law_outcomes(r: Result<Export, CatalogError>)
    ensures
        r is Ok ==> rules::outcome_of(r) == Ok::<ExportView, CatalogErrorView>(r->Ok_0@),
        r matches Err(CatalogError::NotFound(id)) ==> rules::outcome_of(r) == Err::<
            ExportView,
            CatalogErrorView,
        >(CatalogErrorView::NotFound(id)),
        r matches Err(CatalogError::Invalid(m)) ==> rules::outcome_of(r) == Err::<
            ExportView,
            CatalogErrorView,
        >(CatalogErrorView::Invalid(m@)),
        r == Err::<Export, CatalogError>(CatalogError::EndpointExhausted) ==> rules::outcome_of(r)
            == Err::<ExportView, CatalogErrorView>(CatalogErrorView::EndpointExhausted),
{
}

/// A bridge name has 1 to 32 characters; any other is refused with a message that says so.
pub proof fn law_bridge_name(name: Seq<char>)
    ensures
        rules::valid_bridge_name(name) <==> name.len() > 0 && name.len() < 33,
        rules::bridge_name_error() == CatalogErrorView::Invalid(
            "bridge_name must be 1..=32 characters"@,
        ),
        endpoint_ids::FIRST_ENDPOINT_ID == 1,
{
}

} // verus!
