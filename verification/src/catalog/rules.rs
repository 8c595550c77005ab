//! What each catalog operation does, as functions on the contents of a catalog.
use super::error::{CatalogError, CatalogErrorView};
use super::model::{Export, ExportView};
use super::requests::{CreateExport, PatchExport, PersistedConfig, PersistedExports};
use super::{endpoint_ids, model};
use vstd::prelude::*;

verus! {

/// The contents of a catalog.
#[verifier::ext_equal]
pub struct CatalogView {
    pub data_dir: Seq<char>,
    pub bridge_name: Seq<char>,
    pub exports: Map<u128, ExportView>,
    pub next_endpoint: u16,
}

/// Whether every export is filed under its own identity and has an endpoint id.
pub open spec fn well_filed(exports: Map<u128, ExportView>) -> bool {
    forall|id: u128| #[trigger]
        exports.contains_key(id) ==> exports[id].export_id == id && exports[id].endpoint_id is Some
}

/// Whether `s` lists the exports of `exports`, each once, by increasing identity.
pub open spec fn is_listing(exports: Map<u128, ExportView>, s: Seq<ExportView>) -> bool {
    &&& forall|i: int, j: int|
        0 <= i < j < s.len() ==> (#[trigger] s[i]).export_id < (#[trigger] s[j]).export_id
    &&& forall|i: int|
        0 <= i < s.len() ==> exports.contains_key((#[trigger] s[i]).export_id)
            && exports[s[i].export_id] == s[i]
    &&& forall|id: u128| #[trigger]
        exports.contains_key(id) ==> exists|i: int| 0 <= i < s.len() && s[i] == exports[id]
}

/// The identities of the enabled exports.
pub open spec fn enabled_ids(exports: Map<u128, ExportView>) -> Set<u128> {
    exports.dom().filter(|id: u128| exports[id].enabled)
}

/// Whether a bridge name is acceptable: 1 to 32 characters.
pub open spec fn valid_bridge_name(name: Seq<char>) -> bool {
    1 <= name.len() <= 32
}

/// Whether an export name is acceptable: 1 to 64 characters.
pub open spec fn valid_name(name: Seq<char>) -> bool {
    1 <= name.len() <= 64
}

/// The error for a bridge name that is not acceptable.
pub open spec fn bridge_name_error() -> CatalogErrorView {
    CatalogErrorView::Invalid("bridge_name must be 1..=32 characters"@)
}

/// The error for an export name that is not acceptable.
pub open spec fn name_error() -> CatalogErrorView {
    CatalogErrorView::Invalid("name must be 1..=64 characters"@)
}

/// The error for a missing primary entity.
pub open spec fn primary_error() -> CatalogErrorView {
    CatalogErrorView::Invalid("primary_entity_id must be non-empty"@)
}

/// What is wrong with the name and the primary entity of an export, if anything.
pub open spec fn field_error(name: Seq<char>, primary: Seq<char>) -> Option<CatalogErrorView> {
    if !valid_name(name) {
        Some(name_error())
    } else if primary.len() == 0 {
        Some(primary_error())
    } else {
        None
    }
}

/// The result of an operation on one export.
pub open spec fn outcome_of(r: Result<Export, CatalogError>) -> Result<ExportView, CatalogErrorView> {
    match r {
        Ok(e) => Ok(e@),
        Err(e) => Err(e@),
    }
}

/// The export that a create request asks for.
pub open spec fn created(body: CreateExport, id: u128, ep: u16) -> ExportView {
    ExportView {
        export_id: id,
        name: body.name@,
        type_: body.type_,
        primary_entity_id: body.primary_entity_id@,
        linked: body.linked@,
        area_id: model::opt_text(body.area_id),
        enabled: body.enabled,
        endpoint_id: Some(ep),
    }
}

/// A create request under the identity `id`: the catalog afterwards, and the result.
pub open spec fn create_outcome(cat: CatalogView, id: u128, body: CreateExport) -> (
    CatalogView,
    Result<ExportView, CatalogErrorView>,
) {
    let ep = endpoint_ids::next_free(cat.next_endpoint, endpoint_ids::used_ids(cat.exports));
    if field_error(body.name@, body.primary_entity_id@) is Some {
        (cat, Err(field_error(body.name@, body.primary_entity_id@)->0))
    } else if cat.exports.contains_key(id) {
        (
            cat,
            Err(
                CatalogErrorView::Invalid(
                    "export_id already exists: "@ + crate::ids::hyphenated_text(id),
                ),
            ),
        )
    } else if endpoint_ids::exhausted(cat.exports) {
        (cat, Err(CatalogErrorView::EndpointExhausted))
    } else {
        (
            CatalogView {
                exports: cat.exports.insert(id, created(body, id, ep)),
                next_endpoint: endpoint_ids::id_after(ep),
                ..cat
            },
            Ok(created(body, id, ep)),
        )
    }
}

/// `e` with the name and the type that a patch asks for.
pub open spec fn renamed(e: ExportView, body: PatchExport) -> ExportView {
    ExportView {
        name: match body.name {
            Some(name) => name@,
            None => e.name,
        },
        type_: match body.type_ {
            Some(t) => t,
            None => e.type_,
        },
        ..e
    }
}

/// `e` with everything that a patch asks for.
pub open spec fn patched(e: ExportView, body: PatchExport) -> ExportView {
    ExportView {
        primary_entity_id: match body.primary_entity_id {
            Some(p) => p@,
            None => e.primary_entity_id,
        },
        linked: match body.linked {
            Some(l) => l@,
            None => e.linked,
        },
        area_id: match body.area_id {
            Some(a) => model::opt_text(a),
            None => e.area_id,
        },
        enabled: match body.enabled {
            Some(b) => b,
            None => e.enabled,
        },
        ..renamed(e, body)
    }
}

/// A patch request: the catalog afterwards, and the result. A name that is not
/// acceptable changes nothing; a missing primary entity leaves the new name and type
/// behind.
pub open spec fn patch_outcome(cat: CatalogView, id: u128, body: PatchExport) -> (
    CatalogView,
    Result<ExportView, CatalogErrorView>,
) {
    let e = cat.exports[id];
    if !cat.exports.contains_key(id) {
        (cat, Err(CatalogErrorView::NotFound(id)))
    } else if body.name is Some && !valid_name(body.name->0@) {
        (cat, Err(name_error()))
    } else if body.primary_entity_id is Some && body.primary_entity_id->0@.len() == 0 {
        (
            CatalogView { exports: cat.exports.insert(id, renamed(e, body)), ..cat },
            Err(primary_error()),
        )
    } else {
        (
            CatalogView { exports: cat.exports.insert(id, patched(e, body)), ..cat },
            Ok(patched(e, body)),
        )
    }
}

/// A delete request: the catalog afterwards, and the result.
pub open spec fn delete_outcome(cat: CatalogView, id: u128) -> (
    CatalogView,
    Result<ExportView, CatalogErrorView>,
) {
    if cat.exports.contains_key(id) {
        (CatalogView { exports: cat.exports.remove(id), ..cat }, Ok(cat.exports[id]))
    } else {
        (cat, Err(CatalogErrorView::NotFound(id)))
    }
}

/// Exports taken over so far, the next endpoint id to assign, and what went wrong.
#[verifier::ext_equal]
pub struct Progress {
    pub exports: Map<u128, ExportView>,
    pub next_endpoint: u16,
    pub error: Option<CatalogErrorView>,
}

/// The endpoint ids that are held while a replacement takes over the export `id`: those of
/// the known exports and of the other exports taken over so far.
pub open spec fn held_ids(
    known: Map<u128, ExportView>,
    taken: Map<u128, ExportView>,
    id: u128,
) -> Set<u16> {
    endpoint_ids::used_ids(known).union(endpoint_ids::used_ids(taken.remove(id)))
}

/// The endpoint id that a replacement keeps: the one that the identity already has. An
/// identity that is not known keeps the one that it brings, where that is assignable and
/// nothing holds it.
pub open spec fn kept_endpoint(
    known: Map<u128, ExportView>,
    held: Set<u16>,
    e: ExportView,
) -> Option<u16> {
    if known.contains_key(e.export_id) && known[e.export_id].endpoint_id is Some {
        known[e.export_id].endpoint_id
    } else if e.endpoint_id is Some && e.endpoint_id->0 >= endpoint_ids::FIRST_ENDPOINT_ID
        && !held.contains(e.endpoint_id->0) {
        e.endpoint_id
    } else {
        None
    }
}

/// `p` after one more incoming export. An identity that keeps no endpoint id gets the next
/// one that nothing holds.
pub open spec fn take_over(known: Map<u128, ExportView>, p: Progress, e: ExportView) -> Progress {
    let held = held_ids(known, p.exports, e.export_id);
    let ep = endpoint_ids::next_free(p.next_endpoint, held);
    if p.error is Some {
        p
    } else if field_error(e.name, e.primary_entity_id) is Some {
        Progress { error: field_error(e.name, e.primary_entity_id), ..p }
    } else if kept_endpoint(known, held, e) is Some {
        Progress {
            exports: p.exports.insert(
                e.export_id,
                ExportView { endpoint_id: kept_endpoint(known, held, e), ..e },
            ),
            ..p
        }
    } else if endpoint_ids::full(held) {
        Progress { error: Some(CatalogErrorView::EndpointExhausted), ..p }
    } else {
        Progress {
            exports: p.exports.insert(e.export_id, ExportView { endpoint_id: Some(ep), ..e }),
            next_endpoint: endpoint_ids::id_after(ep),
            error: None,
        }
    }
}

/// Taking over `incoming`, first to last, into an empty catalog. A later export replaces
/// an earlier one of the same identity; the first error ends it.
pub open spec fn taken_over(
    known: Map<u128, ExportView>,
    next: u16,
    incoming: Seq<ExportView>,
) -> Progress
    decreases incoming.len(),
{
    if incoming.len() == 0 {
        Progress { exports: Map::empty(), next_endpoint: next, error: None }
    } else {
        take_over(known, taken_over(known, next, incoming.drop_last()), incoming.last())
    }
}

/// A replacement of the whole catalog: the catalog afterwards, and the error if it failed.
/// A failed replacement keeps the exports, but not the bridge name or the next endpoint id.
pub open spec fn replace_outcome(
    cat: CatalogView,
    bridge_name: Seq<char>,
    incoming: Seq<ExportView>,
) -> (CatalogView, Option<CatalogErrorView>) {
    let p = taken_over(cat.exports, cat.next_endpoint, incoming);
    if !valid_bridge_name(bridge_name) {
        (cat, Some(bridge_name_error()))
    } else if p.error is Some {
        (CatalogView { bridge_name, next_endpoint: p.next_endpoint, ..cat }, p.error)
    } else {
        (
            CatalogView {
                bridge_name,
                exports: p.exports,
                next_endpoint: p.next_endpoint,
                ..cat
            },
            None,
        )
    }
}

/// An error on the way is the error at the end.
pub proof fn lemma_taken_over_stuck(
    known: Map<u128, ExportView>,
    next: u16,
    incoming: Seq<ExportView>,
    i: int,
)
    requires
        0 <= i <= incoming.len(),
        taken_over(known, next, incoming.take(i)).error is Some,
    ensures
        taken_over(known, next, incoming) == taken_over(known, next, incoming.take(i)),
    decreases incoming.len() - i,
{
    if i == incoming.len() {
        assert(incoming.take(i) =~= incoming);
    } else {
        assert(incoming.take(i + 1).drop_last() =~= incoming.take(i));
        lemma_taken_over_stuck(known, next, incoming, i + 1);
    }
}

/// Progress is well filed throughout a take-over.
pub proof fn lemma_taken_over_well_filed(
    known: Map<u128, ExportView>,
    next: u16,
    incoming: Seq<ExportView>,
)
    ensures
        well_filed(taken_over(known, next, incoming).exports),
    decreases incoming.len(),
{
    if incoming.len() > 0 {
        lemma_taken_over_well_filed(known, next, incoming.drop_last());
    }
}

/// Exports read back so far, the next endpoint id to assign, and the identities that were
/// read without an endpoint id.
#[verifier::ext_equal]
pub struct ReadBack {
    pub exports: Map<u128, ExportView>,
    pub next_endpoint: u16,
    pub missing: Seq<u128>,
}

/// The least next endpoint id that lies past `ep`, where one does.
pub open spec fn past(next: u16, ep: Option<u16>) -> u16 {
    match ep {
        Some(e) => {
            let after = if e == u16::MAX {
                u16::MAX
            } else {
                (e + 1) as u16
            };
            if after > next {
                after
            } else {
                next
            }
        },
        None => next,
    }
}

/// Reading back stored exports, first to last.
pub open spec fn read_back(next: u16, stored: Seq<ExportView>) -> ReadBack
    decreases stored.len(),
{
    if stored.len() == 0 {
        ReadBack { exports: Map::empty(), next_endpoint: next, missing: Seq::empty() }
    } else {
        let p = read_back(next, stored.drop_last());
        let e = stored.last();
        ReadBack {
            exports: p.exports.insert(e.export_id, e),
            next_endpoint: past(p.next_endpoint, e.endpoint_id),
            missing: if e.endpoint_id is None {
                p.missing.push(e.export_id)
            } else {
                p.missing
            },
        }
    }
}

/// Giving each of the identities `missing`, first to last, the next free endpoint id.
pub open spec fn assign_missing(
    exports: Map<u128, ExportView>,
    next: u16,
    missing: Seq<u128>,
) -> Progress
    decreases missing.len(),
{
    if missing.len() == 0 {
        Progress { exports, next_endpoint: next, error: None }
    } else {
        let p = assign_missing(exports, next, missing.drop_last());
        let id = missing.last();
        let ep = endpoint_ids::next_free(p.next_endpoint, endpoint_ids::used_ids(p.exports));
        if p.error is Some {
            p
        } else if endpoint_ids::exhausted(p.exports) {
            Progress { error: Some(CatalogErrorView::EndpointExhausted), ..p }
        } else {
            Progress {
                exports: p.exports.insert(
                    id,
                    ExportView { endpoint_id: Some(ep), ..p.exports[id] },
                ),
                next_endpoint: endpoint_ids::id_after(ep),
                error: None,
            }
        }
    }
}

/// What a stored catalog gives when it is loaded: stored endpoint ids stay, and identities
/// without one get ids past them.
pub open spec fn load_progress(next: u16, stored: Seq<ExportView>) -> Progress {
    let p = read_back(next, stored);
    assign_missing(p.exports, p.next_endpoint, p.missing)
}

/// The next endpoint id that a stored configuration gives.
pub open spec fn stored_next(config: Option<PersistedConfig>) -> u16 {
    match config {
        Some(c) => if c.next_endpoint < endpoint_ids::FIRST_ENDPOINT_ID {
            endpoint_ids::FIRST_ENDPOINT_ID
        } else {
            c.next_endpoint
        },
        None => endpoint_ids::FIRST_ENDPOINT_ID,
    }
}

/// The exports that an export file gives.
pub open spec fn stored_exports(file: Option<PersistedExports>) -> Seq<ExportView> {
    match file {
        Some(f) => model::export_views(f.exports@),
        None => Seq::empty(),
    }
}

/// An export read back without an endpoint id is among those that miss one, and those are
/// all filed under their own identity.
pub proof fn lemma_read_back(next: u16, stored: Seq<ExportView>)
    ensures
        forall|id: u128| #[trigger]
            read_back(next, stored).exports.contains_key(id) ==> read_back(
                next,
                stored,
            ).exports[id].export_id == id && (read_back(next, stored).exports[id].endpoint_id
                is None ==> read_back(next, stored).missing.contains(id)),
        forall|k: int|
            0 <= k < read_back(next, stored).missing.len() ==> read_back(
                next,
                stored,
            ).exports.contains_key(#[trigger] read_back(next, stored).missing[k]),
    decreases stored.len(),
{
    if stored.len() > 0 {
        let p = read_back(next, stored.drop_last());
        let e = stored.last();
        let q = read_back(next, stored);
        lemma_read_back(next, stored.drop_last());
        assert forall|id: u128| #[trigger] q.exports.contains_key(id) implies q.exports[id].export_id
            == id && (q.exports[id].endpoint_id is None ==> q.missing.contains(id)) by {
            if id == e.export_id {
                if e.endpoint_id is None {
                    assert(q.missing[p.missing.len() as int] == id);
                }
            } else {
                assert(p.exports.contains_key(id));
                if q.exports[id].endpoint_id is None {
                    let k = choose|k: int| 0 <= k < p.missing.len() && p.missing[k] == id;
                    assert(q.missing[k] == id);
                }
            }
        }
        assert forall|k: int| 0 <= k < q.missing.len() implies q.exports.contains_key(
            #[trigger] q.missing[k],
        ) by {
            if k < p.missing.len() {
                assert(p.exports.contains_key(p.missing[k]));
            }
        }
    }
}

/// Assigning ids keeps the identities, gives each missing one an id, and takes none away.
pub proof fn lemma_assign_missing(exports: Map<u128, ExportView>, next: u16, missing: Seq<u128>)
    requires
        forall|k: int| 0 <= k < missing.len() ==> exports.contains_key(#[trigger] missing[k]),
        forall|id: u128| #[trigger]
            exports.contains_key(id) ==> exports[id].export_id == id,
    ensures
        assign_missing(exports, next, missing).exports.dom() =~= exports.dom(),
        forall|id: u128| #[trigger]
            exports.contains_key(id) ==> {
                let q = assign_missing(exports, next, missing);
                &&& q.exports[id].export_id == id
                &&& exports[id].endpoint_id is Some ==> q.exports[id].endpoint_id is Some
                &&& q.error is None && missing.contains(id) ==> q.exports[id].endpoint_id is Some
            },
    decreases missing.len(),
{
    if missing.len() > 0 {
        let front = missing.drop_last();
        assert forall|k: int| 0 <= k < front.len() implies exports.contains_key(
            #[trigger] front[k],
        ) by {
            assert(front[k] == missing[k]);
        }
        lemma_assign_missing(exports, next, front);
        let p = assign_missing(exports, next, front);
        let q = assign_missing(exports, next, missing);
        assert(exports.contains_key(missing[missing.len() - 1]));
        assert forall|id: u128| #[trigger] exports.contains_key(id) implies {
            &&& q.exports[id].export_id == id
            &&& exports[id].endpoint_id is Some ==> q.exports[id].endpoint_id is Some
            &&& q.error is None && missing.contains(id) ==> q.exports[id].endpoint_id is Some
        } by {
            if missing.contains(id) && id != missing.last() {
                let k = choose|k: int| 0 <= k < missing.len() && missing[k] == id;
                assert(front[k] == id);
            }
        }
    }
}

/// An error while assigning ids is the error at the end.
pub proof fn lemma_assign_missing_stuck(
    exports: Map<u128, ExportView>,
    next: u16,
    missing: Seq<u128>,
    i: int,
)
    requires
        0 <= i <= missing.len(),
        assign_missing(exports, next, missing.take(i)).error is Some,
    ensures
        assign_missing(exports, next, missing) == assign_missing(exports, next, missing.take(i)),
    decreases missing.len() - i,
{
    if i == missing.len() {
        assert(missing.take(i) =~= missing);
    } else {
        assert(missing.take(i + 1).drop_last() =~= missing.take(i));
        lemma_assign_missing_stuck(exports, next, missing, i + 1);
    }
}

/// A loaded catalog is well filed.
pub proof fn lemma_loaded_well_filed(next: u16, stored: Seq<ExportView>)
    requires
        load_progress(next, stored).error is None,
    ensures
        well_filed(load_progress(next, stored).exports),
{
    let p = read_back(next, stored);
    let q = load_progress(next, stored);
    lemma_read_back(next, stored);
    lemma_assign_missing(p.exports, p.next_endpoint, p.missing);
    assert forall|id: u128| #[trigger] q.exports.contains_key(id) implies q.exports[id].export_id
        == id && q.exports[id].endpoint_id is Some by {
        assert(p.exports.contains_key(id));
    }
}

} // verus!
