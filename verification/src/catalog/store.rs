//! In-memory export catalog with stable endpoint assignment.
use super::endpoint_ids::{find_free, FIRST_ENDPOINT_ID};
use super::error::{CatalogError, CatalogErrorView};
use super::model::{CatalogSnapshot, Export};
use super::requests::{CreateExport, PatchExport, PersistedConfig, PersistedExports};
use super::rules::{CatalogView, Progress, ReadBack};
use super::{endpoint_ids, model, rules};
use crate::ids::{hyphenated, new_v4};
use std::collections::{BTreeMap, BTreeSet};
use vstd::prelude::*;
use vstd::string::*;

verus! {

broadcast use {
    vstd::laws_cmp::group_laws_cmp,
    vstd::std_specs::btree::group_btree_axioms,
};

/// In-memory export catalog with stable endpoint assignment.
#[derive(Debug)]
pub struct CatalogStore {
    data_dir: String,
    bridge_name: String,
    by_id: BTreeMap<u128, Export>,
    next_endpoint: u16,
}

impl View for CatalogStore {
    type V = CatalogView;

    closed spec fn view(&self) -> CatalogView {
        CatalogView {
            data_dir: self.data_dir@,
            bridge_name: self.bridge_name@,
            exports: Map::new(
                |id: u128| self.by_id@.contains_key(id),
                |id: u128| self.by_id@[id]@,
            ),
            next_endpoint: self.next_endpoint,
        }
    }
}

impl CatalogStore {
    /// Whether the catalog is consistent: every export is filed under its own identity
    /// and has an endpoint id.
    pub open spec fn wf(&self) -> bool {
        rules::well_filed(self@.exports)
    }

    /// Creates an empty catalog.
    pub fn new(data_dir: String, bridge_name: String) -> (r: Self)
        ensures
            r.wf(),
            r@ == (CatalogView {
                data_dir: data_dir@,
                bridge_name: bridge_name@,
                exports: Map::empty(),
                next_endpoint: FIRST_ENDPOINT_ID,
            }),
    {
        let r = CatalogStore {
            data_dir,
            bridge_name,
            by_id: BTreeMap::new(),
            next_endpoint: FIRST_ENDPOINT_ID,
        };
        assert(r@.exports =~= Map::empty());
        r
    }

    /// The identities of all exports, in increasing order.
    fn ids(&self) -> (r: Vec<u128>)
        ensures
            forall|i: int, j: int| 0 <= i < j < r@.len() ==> r@[i] < r@[j],
            forall|i: int| 0 <= i < r@.len() ==> self.by_id@.contains_key(#[trigger] r@[i]),
            forall|id: u128| #[trigger] self.by_id@.contains_key(id) ==> r@.contains(id),
            r@.len() == self.by_id@.dom().len(),
    {
        let mut out: Vec<u128> = Vec::new();
        let iter = self.by_id.iter();
        let ghost entries = vstd::std_specs::iter::IteratorSpec::remaining(&iter);
        let ghost keys = choose|s: Seq<u128>|
            {
                &&& #[trigger] vstd::std_specs::btree::increasing_seq(s)
                &&& s.len() == entries.len()
                &&& forall|i: int| 0 <= i < s.len() ==> #[trigger] s[i] == *entries[i].0
            };
        for kv in it: iter
            invariant
                it.seq() == entries,
                out@.len() == it.index(),
                forall|i: int| 0 <= i < out@.len() ==> #[trigger] out@[i] == *entries[i].0,
        {
            out.push(*kv.0);
        }
        proof {
            assert(keys =~= out@);
            assert forall|i: int, j: int| 0 <= i < j < out@.len() implies out@[i] < out@[j] by {
                assert(vstd::std_specs::cmp::OrdSpec::cmp_spec(&keys[i], &keys[j]) is Less);
            }
            assert forall|id: u128| #[trigger] self.by_id@.contains_key(id) implies out@.contains(
                id,
            ) by {
                let pair = (&id, &self.by_id@[id]);
                assert(entries.contains(pair));
                let i = choose|i: int| 0 <= i < entries.len() && entries[i] == pair;
                assert(out@[i] == id);
            }
            assert forall|i: int| 0 <= i < out@.len() implies self.by_id@.contains_key(
                #[trigger] out@[i],
            ) by {
                assert(self.by_id@.contains_key(*entries[i].0));
            }
        }
        out
    }

    /// All exports by increasing identity.
    pub fn list(&self) -> (r: Vec<Export>)
        requires
            self.wf(),
        ensures
            rules::is_listing(self@.exports, model::export_views(r@)),
    {
        let ids: Vec<u128> = self.ids();
        let mut out: Vec<Export> = Vec::new();
        for i in 0..ids.len()
            invariant
                self.wf(),
                out@.len() == i,
                forall|k: int| 0 <= k < ids@.len() ==> self.by_id@.contains_key(#[trigger] ids@[k]),
                forall|k: int|
                    0 <= k < i ==> (#[trigger] out@[k])@ == self@.exports[ids@[k]],
        {
            if let Some(e) = self.by_id.get(&ids[i]) {
                out.push(e.clone());
            }
        }
        proof {
            let views = model::export_views(out@);
            assert forall|k: int| 0 <= k < views.len() implies #[trigger] views[k]
                == self@.exports[ids@[k]] && views[k].export_id == ids@[k] by {
                assert(self@.exports.contains_key(ids@[k]));
            }
            assert forall|id: u128| #[trigger] self@.exports.contains_key(id) implies exists|k: int|
                0 <= k < views.len() && views[k] == self@.exports[id] by {
                assert(self.by_id@.contains_key(id));
                let k = choose|k: int| 0 <= k < ids@.len() && ids@[k] == id;
                assert(views[k] == self@.exports[id]);
            }
        }
        out
    }

    /// Adds the endpoint ids that the exports occupy to a set.
    fn add_used(&self, out: &mut BTreeSet<u16>)
        requires
            old(out)@.finite(),
        ensures
            final(out)@ == old(out)@.union(endpoint_ids::used_ids(self@.exports)),
            final(out)@.finite(),
    {
        let ids: Vec<u128> = self.ids();
        let ghost first = out@;
        for i in 0..ids.len()
            invariant
                out@.finite(),
                first == old(out)@,
                forall|k: int| 0 <= k < ids@.len() ==> self.by_id@.contains_key(#[trigger] ids@[k]),
                forall|e: u16| #[trigger]
                    out@.contains(e) <==> first.contains(e) || exists|k: int|
                        0 <= k < i && self.by_id@[#[trigger] ids@[k]].endpoint_id == Some(e),
        {
            let ghost before = out@;
            if let Some(exp) = self.by_id.get(&ids[i]) {
                if let Some(ep) = exp.endpoint_id {
                    out.insert(ep);
                }
            }
            proof {
                assert forall|e: u16| #[trigger] out@.contains(e) <==> first.contains(e) || exists|
                    k: int,
                |
                    0 <= k < i + 1 && self.by_id@[#[trigger] ids@[k]].endpoint_id == Some(e) by {
                    if before.contains(e) && !first.contains(e) {
                        let k = choose|k: int|
                            0 <= k < i && self.by_id@[#[trigger] ids@[k]].endpoint_id == Some(e);
                        assert(0 <= k < i + 1);
                    }
                    if self.by_id@[ids@[i as int]].endpoint_id == Some(e) {
                        assert(0 <= i < i + 1);
                    }
                }
            }
        }
        proof {
            let target = endpoint_ids::used_ids(self@.exports);
            assert forall|e: u16| out@.contains(e) <==> first.contains(e) || target.contains(e) by {
                if target.contains(e) {
                    let id = choose|id: u128| #[trigger]
                        self@.exports.contains_key(id) && self@.exports[id].endpoint_id == Some(e);
                    assert(self.by_id@.contains_key(id));
                    let k = choose|k: int| 0 <= k < ids@.len() && ids@[k] == id;
                    assert(self.by_id@[ids@[k]].endpoint_id == Some(e));
                }
                if out@.contains(e) && !first.contains(e) {
                    let k = choose|k: int|
                        0 <= k < ids@.len() && self.by_id@[#[trigger] ids@[k]].endpoint_id == Some(
                            e,
                        );
                    assert(self@.exports.contains_key(ids@[k]));
                }
            }
            assert(out@ =~= first.union(target));
        }
    }

    /// The endpoint ids that the exports occupy.
    fn used(&self) -> (r: BTreeSet<u16>)
        ensures
            r@ == endpoint_ids::used_ids(self@.exports),
            r@.finite(),
    {
        let mut out: BTreeSet<u16> = BTreeSet::new();
        self.add_used(&mut out);
        assert(out@ =~= endpoint_ids::used_ids(self@.exports));
        out
    }

    /// Takes the first endpoint id at or after the next one to assign that is not in use,
    /// wrapping past the last id.
    fn alloc_endpoint(&mut self, used: &BTreeSet<u16>) -> (r: Result<u16, CatalogError>)
        requires
            used@.finite(),
        ensures
            final(self).by_id == old(self).by_id,
            match r {
                Err(e) => e@ == CatalogErrorView::EndpointExhausted && endpoint_ids::full(used@)
                    && final(self)@ == old(self)@,
                Ok(ep) => !endpoint_ids::full(used@) && ep == endpoint_ids::next_free(
                    old(self)@.next_endpoint,
                    used@,
                ) && endpoint_ids::is_next_free(old(self)@.next_endpoint, used@, ep)
                    && final(self)@ == (CatalogView {
                    next_endpoint: endpoint_ids::id_after(ep),
                    ..old(self)@
                }),
            },
    {
        if used.len() >= 65535 {
            return Err(CatalogError::EndpointExhausted);
        }
        let ep: u16 = find_free(self.next_endpoint, used);
        self.next_endpoint = if ep == u16::MAX {
            0
        } else {
            ep + 1
        };
        Ok(ep)
    }

    /// The export with the given identity.
    pub fn get(&self, id: u128) -> (r: Option<Export>)
        ensures
            match r {
                Some(e) => self@.exports.contains_key(id) && e@ == self@.exports[id],
                None => !self@.exports.contains_key(id),
            },
    {
        match self.by_id.get(&id) {
            Some(e) => Some(e.clone()),
            None => None,
        }
    }

    /// Files an export under its identity.
    fn file(&mut self, exp: Export)
        ensures
            final(self)@ == (CatalogView {
                exports: old(self)@.exports.insert(exp.export_id, exp@),
                ..old(self)@
            }),
    {
        self.by_id.insert(exp.export_id, exp);
        assert(self@.exports =~= old(self)@.exports.insert(exp.export_id, exp@));
    }

    /// Checks the name and the primary entity of an export.
    fn validate_export_fields(name: &str, primary_entity_id: &str) -> (r: Result<(), CatalogError>)
        ensures
            match r {
                Ok(_) => rules::field_error(name@, primary_entity_id@) is None,
                Err(e) => rules::field_error(name@, primary_entity_id@) == Some(e@),
            },
    {
        let n: usize = name.unicode_len();
        if n == 0 || n > 64 {
            return Err(CatalogError::Invalid("name must be 1..=64 characters".to_owned()));
        }
        if primary_entity_id.is_empty() {
            return Err(CatalogError::Invalid("primary_entity_id must be non-empty".to_owned()));
        }
        Ok(())
    }

    /// Adds an export under the identity `id`.
    pub fn create_with_id(&mut self, id: u128, body: CreateExport) -> (r: Result<
        Export,
        CatalogError,
    >)
        requires
            old(self).wf(),
        ensures
            final(self).wf(),
            (final(self)@, rules::outcome_of(r)) == rules::create_outcome(old(self)@, id, body),
    {
        match Self::validate_export_fields(body.name.as_str(), body.primary_entity_id.as_str()) {
            Err(e) => {
                return Err(e);
            },
            Ok(_) => {},
        }
        if self.by_id.contains_key(&id) {
            assert(self@.exports.contains_key(id));
            return Err(
                CatalogError::Invalid(
                    "export_id already exists: ".to_owned().concat(hyphenated(id).as_str()),
                ),
            );
        }
        assert(!self@.exports.contains_key(id));
        let used: BTreeSet<u16> = self.used();
        match self.alloc_endpoint(&used) {
            Err(e) => Err(e),
            Ok(ep) => {
                let exp = Export {
                    export_id: id,
                    name: body.name,
                    type_: body.type_,
                    primary_entity_id: body.primary_entity_id,
                    linked: body.linked,
                    area_id: body.area_id,
                    enabled: body.enabled,
                    endpoint_id: Some(ep),
                };
                let out: Export = exp.clone();
                self.file(exp);
                Ok(out)
            },
        }
    }

    /// Adds an export. Where the request names no identity, a random one is drawn.
    pub fn create(&mut self, body: CreateExport) -> (r: Result<Export, CatalogError>)
        requires
            old(self).wf(),
        ensures
            final(self).wf(),
            exists|id: u128|
                {
                    &&& match body.export_id {
                        Some(given) => id == given,
                        None => crate::ids::is_random_id(id),
                    }
                    &&& (final(self)@, rules::outcome_of(r)) == #[trigger] rules::create_outcome(
                        old(self)@,
                        id,
                        body,
                    )
                },
    {
        let id: u128 = match body.export_id {
            Some(id) => id,
            None => new_v4(),
        };
        self.create_with_id(id, body)
    }

    /// Changes an export. Every stored export has an endpoint id, so a patch keeps it and
    /// never assigns one.
    pub fn patch(&mut self, id: u128, body: PatchExport) -> (r: Result<Export, CatalogError>)
        requires
            old(self).wf(),
        ensures
            final(self).wf(),
            (final(self)@, rules::outcome_of(r)) == rules::patch_outcome(old(self)@, id, body),
    {
        let mut exp: Export = match self.get(id) {
            None => {
                return Err(CatalogError::NotFound(id));
            },
            Some(e) => e,
        };
        if let Some(name) = body.name {
            let n: usize = name.as_str().unicode_len();
            if n == 0 || n > 64 {
                return Err(CatalogError::Invalid("name must be 1..=64 characters".to_owned()));
            }
            exp.name = name;
        }
        if let Some(type_) = body.type_ {
            exp.type_ = type_;
        }
        if let Some(primary) = body.primary_entity_id {
            if primary.as_str().is_empty() {
                self.file(exp);
                return Err(CatalogError::Invalid("primary_entity_id must be non-empty".to_owned()));
            }
            exp.primary_entity_id = primary;
        }
        if let Some(linked) = body.linked {
            exp.linked = linked;
        }
        if let Some(area_id) = body.area_id {
            exp.area_id = area_id;
        }
        if let Some(enabled) = body.enabled {
            exp.enabled = enabled;
        }
        let out: Export = exp.clone();
        self.file(exp);
        Ok(out)
    }

    /// Removes an export.
    pub fn delete(&mut self, id: u128) -> (r: Result<Export, CatalogError>)
        requires
            old(self).wf(),
        ensures
            final(self).wf(),
            (final(self)@, rules::outcome_of(r)) == rules::delete_outcome(old(self)@, id),
    {
        match self.by_id.remove(&id) {
            Some(e) => {
                assert(self@.exports =~= old(self)@.exports.remove(id));
                assert(old(self)@.exports.contains_key(id));
                Ok(e)
            },
            None => {
                assert(self@.exports =~= old(self)@.exports);
                Err(CatalogError::NotFound(id))
            },
        }
    }

    /// The bridge name and all exports by increasing identity.
    pub fn snapshot(&self) -> (r: CatalogSnapshot)
        requires
            self.wf(),
        ensures
            r.bridge_name@ == self@.bridge_name,
            rules::is_listing(self@.exports, model::export_views(r.exports@)),
    {
        CatalogSnapshot { bridge_name: self.bridge_name.clone(), exports: self.list() }
    }

    /// Replaces the whole catalog. An identity keeps the endpoint id that it already has.
    pub fn replace(&mut self, incoming: CatalogSnapshot) -> (r: Result<
        CatalogSnapshot,
        CatalogError,
    >)
        requires
            old(self).wf(),
        ensures
            final(self).wf(),
            final(self)@ == rules::replace_outcome(
                old(self)@,
                incoming.bridge_name@,
                model::export_views(incoming.exports@),
            ).0,
            match r {
                Ok(snapshot) => {
                    &&& rules::replace_outcome(
                        old(self)@,
                        incoming.bridge_name@,
                        model::export_views(incoming.exports@),
                    ).1 is None
                    &&& snapshot.bridge_name@ == final(self)@.bridge_name
                    &&& rules::is_listing(
                        final(self)@.exports,
                        model::export_views(snapshot.exports@),
                    )
                },
                Err(e) => rules::replace_outcome(
                    old(self)@,
                    incoming.bridge_name@,
                    model::export_views(incoming.exports@),
                ).1 == Some(e@),
            },
    {
        let n: usize = incoming.bridge_name.as_str().unicode_len();
        if n == 0 || n > 32 {
            return Err(CatalogError::Invalid("bridge_name must be 1..=32 characters".to_owned()));
        }
        self.bridge_name = incoming.bridge_name;
        let mut next = CatalogStore::new(String::new(), String::new());
        let ghost known = old(self)@.exports;
        let ghost first = old(self)@.next_endpoint;
        let ghost views = model::export_views(incoming.exports@);
        let ghost cat = CatalogView { bridge_name: incoming.bridge_name@, ..old(self)@ };
        proof {
            assert(views.take(0).len() == 0);
            assert(self@.exports =~= known);
        }
        for i in 0..incoming.exports.len()
            invariant
                known == old(self)@.exports,
                first == old(self)@.next_endpoint,
                old(self).wf(),
                views == model::export_views(incoming.exports@),
                cat == (CatalogView { bridge_name: incoming.bridge_name@, ..old(self)@ }),
                rules::valid_bridge_name(incoming.bridge_name@),
                rules::taken_over(known, first, views.take(i as int)) == (Progress {
                    exports: next@.exports,
                    next_endpoint: self@.next_endpoint,
                    error: None,
                }),
                self@ == (CatalogView { next_endpoint: self@.next_endpoint, ..cat }),
        {
            let mut exp: Export = incoming.exports[i].clone();
            let ghost before = views.take(i as int);
            let ghost more = views.take(i + 1);
            proof {
                assert(more.drop_last() =~= before);
                assert(more.last() == exp@);
            }
            match Self::validate_export_fields(exp.name.as_str(), exp.primary_entity_id.as_str()) {
                Err(e) => {
                    proof {
                        rules::lemma_taken_over_stuck(known, first, views, i + 1);
                    }
                    return Err(e);
                },
                Ok(_) => {},
            }
            let ghost taken = next@.exports;
            next.by_id.remove(&exp.export_id);
            assert(next@.exports =~= taken.remove(exp.export_id));
            let ghost held_now = rules::held_ids(known, taken, exp.export_id);
            if let Some(prev) = self.by_id.get(&exp.export_id) {
                assert(known.contains_key(exp.export_id));
                exp.endpoint_id = prev.endpoint_id;
            } else {
                assert(!known.contains_key(exp.export_id));
                let mut held: BTreeSet<u16> = self.used();
                next.add_used(&mut held);
                assert(held@ == held_now);
                let free: bool = match exp.endpoint_id {
                    Some(ep) => ep >= FIRST_ENDPOINT_ID && !held.contains(&ep),
                    None => false,
                };
                assert(free == rules::kept_endpoint(known, held_now, more.last()) is Some);
                if !free {
                    match self.alloc_endpoint(&held) {
                        Err(e) => {
                            proof {
                                rules::lemma_taken_over_stuck(known, first, views, i + 1);
                            }
                            return Err(e);
                        },
                        Ok(ep) => {
                            exp.endpoint_id = Some(ep);
                        },
                    }
                }
            }
            assert(taken.remove(exp.export_id).insert(exp.export_id, exp@) =~= taken.insert(
                exp.export_id,
                exp@,
            ));
            next.file(exp);
        }
        proof {
            assert(views.take(views.len() as int) =~= views);
            rules::lemma_taken_over_well_filed(known, first, views);
        }
        self.by_id = next.by_id;
        assert(self@.exports =~= next@.exports);
        Ok(self.snapshot())
    }

    /// Builds the catalog from what the data directory holds: a configuration and an export
    /// file, either of which may be absent. Stored endpoint ids are taken over first, so that
    /// ids assigned to the rest cannot collide with them.
    pub fn load_or_new(
        data_dir: String,
        default_bridge_name: String,
        config: Option<PersistedConfig>,
        file: Option<PersistedExports>,
    ) -> (r: Result<Self, CatalogError>)
        ensures
            match r {
                Ok(store) => {
                    let p = rules::load_progress(rules::stored_next(config), rules::stored_exports(file));
                    &&& store.wf()
                    &&& p.error is None
                    &&& store@ == (CatalogView {
                        data_dir: data_dir@,
                        bridge_name: match config {
                            Some(c) => c.bridge_name@,
                            None => default_bridge_name@,
                        },
                        exports: p.exports,
                        next_endpoint: p.next_endpoint,
                    })
                },
                Err(e) => rules::load_progress(rules::stored_next(config), rules::stored_exports(file)).error == Some(
                    e@,
                ),
            },
    {
        let mut store = CatalogStore::new(data_dir, default_bridge_name);
        let ghost stored = rules::stored_exports(file);
        let ghost next = rules::stored_next(config);
        if let Some(c) = config {
            store.bridge_name = c.bridge_name;
            store.next_endpoint = if c.next_endpoint < FIRST_ENDPOINT_ID {
                FIRST_ENDPOINT_ID
            } else {
                c.next_endpoint
            };
        }
        let ghost cat = store@;
        proof {
            assert(cat.exports =~= Map::empty());
        }
        if let Some(f) = file {
            let mut missing: Vec<u128> = Vec::new();
            assert(stored.take(0).len() == 0);
            for i in 0..f.exports.len()
                invariant
                    stored == model::export_views(f.exports@),
                    rules::read_back(next, stored.take(i as int)) == (ReadBack {
                        exports: store@.exports,
                        next_endpoint: store@.next_endpoint,
                        missing: missing@,
                    }),
                    store@.data_dir == cat.data_dir,
                    store@.bridge_name == cat.bridge_name,
            {
                let exp: Export = f.exports[i].clone();
                proof {
                    assert(stored.take(i + 1).drop_last() =~= stored.take(i as int));
                    assert(stored.take(i + 1).last() == exp@);
                }
                match exp.endpoint_id {
                    Some(ep) => {
                        let after: u16 = if ep == u16::MAX {
                            u16::MAX
                        } else {
                            ep + 1
                        };
                        if after > store.next_endpoint {
                            store.next_endpoint = after;
                        }
                    },
                    None => {
                        missing.push(exp.export_id);
                    },
                }
                store.file(exp);
            }
            let ghost p = rules::read_back(next, stored);
            proof {
                assert(stored.take(stored.len() as int) =~= stored);
                rules::lemma_read_back(next, stored);
                assert(p.missing.take(0).len() == 0);
            }
            for i in 0..missing.len()
                invariant
                    missing@ == p.missing,
                    p == rules::read_back(next, stored),
                    next == rules::stored_next(config),
                    stored == rules::stored_exports(file),
                    forall|k: int|
                        0 <= k < p.missing.len() ==> p.exports.contains_key(
                            #[trigger] p.missing[k],
                        ),
                    forall|id: u128| #[trigger]
                        p.exports.contains_key(id) ==> p.exports[id].export_id == id,
                    rules::assign_missing(p.exports, p.next_endpoint, p.missing.take(i as int)) == (
                    Progress {
                        exports: store@.exports,
                        next_endpoint: store@.next_endpoint,
                        error: None,
                    }),
                    store@.data_dir == cat.data_dir,
                    store@.bridge_name == cat.bridge_name,
            {
                let id: u128 = missing[i];
                let ghost front = p.missing.take(i as int);
                proof {
                    assert(p.missing.take(i + 1).drop_last() =~= front);
                    assert(p.missing.take(i + 1).last() == id);
                    assert forall|k: int| 0 <= k < front.len() implies p.exports.contains_key(
                        #[trigger] front[k],
                    ) by {
                        assert(front[k] == p.missing[k]);
                    }
                    rules::lemma_assign_missing(p.exports, p.next_endpoint, front);
                    assert(p.exports.contains_key(p.missing[i as int]));
                    assert(store@.exports.dom().contains(id));
                }
                let used: BTreeSet<u16> = store.used();
                match store.alloc_endpoint(&used) {
                    Err(e) => {
                        proof {
                            rules::lemma_assign_missing_stuck(
                                p.exports,
                                p.next_endpoint,
                                p.missing,
                                i + 1,
                            );
                        }
                        return Err(e);
                    },
                    Ok(ep) => {
                        if let Some(mut exp) = store.get(id) {
                            exp.endpoint_id = Some(ep);
                            store.file(exp);
                        }
                    },
                }
            }
            assert(p.missing.take(p.missing.len() as int) =~= p.missing);
        }
        proof {
            rules::lemma_loaded_well_filed(next, stored);
        }
        Ok(store)
    }

    /// What the data directory is to hold so that [`CatalogStore::load_or_new`] gives this
    /// catalog back.
    pub fn persisted(&self) -> (r: (PersistedConfig, PersistedExports))
        requires
            self.wf(),
        ensures
            r.0.bridge_name@ == self@.bridge_name,
            r.0.next_endpoint == self@.next_endpoint,
            rules::is_listing(self@.exports, model::export_views(r.1.exports@)),
    {
        (
            PersistedConfig {
                bridge_name: self.bridge_name.clone(),
                next_endpoint: self.next_endpoint,
            },
            PersistedExports { exports: self.list() },
        )
    }

    /// The data directory.
    pub fn data_dir(&self) -> (r: &str)
        ensures
            r@ == self@.data_dir,
    {
        self.data_dir.as_str()
    }

    /// The bridge name.
    pub fn bridge_name(&self) -> (r: &str)
        ensures
            r@ == self@.bridge_name,
    {
        self.bridge_name.as_str()
    }

    /// Changes the bridge name.
    pub fn set_bridge_name(&mut self, name: String) -> (r: Result<(), CatalogError>)
        requires
            old(self).wf(),
        ensures
            final(self).wf(),
            match r {
                Ok(_) => rules::valid_bridge_name(name@) && final(self)@ == (CatalogView {
                    bridge_name: name@,
                    ..old(self)@
                }),
                Err(e) => !rules::valid_bridge_name(name@) && e@ == rules::bridge_name_error() && final(self)@
                    == old(self)@,
            },
    {
        let n: usize = name.as_str().unicode_len();
        if n == 0 || n > 32 {
            return Err(CatalogError::Invalid("bridge_name must be 1..=32 characters".to_owned()));
        }
        self.bridge_name = name;
        Ok(())
    }

    /// The number of exports.
    pub fn export_count(&self) -> (r: usize)
        ensures
            r == self@.exports.dom().len(),
    {
        assert(self@.exports.dom() =~= self.by_id@.dom());
        self.by_id.len()
    }

    /// The number of enabled exports.
    pub fn enabled_export_count(&self) -> (r: usize)
        ensures
            r == rules::enabled_ids(self@.exports).len(),
    {
        let ids: Vec<u128> = self.ids();
        let mut count: usize = 0;
        let ghost mut seen: Set<u128> = Set::empty();
        for i in 0..ids.len()
            invariant
                forall|k: int| 0 <= k < ids@.len() ==> self.by_id@.contains_key(#[trigger] ids@[k]),
                forall|a: int, b: int| 0 <= a < b < ids@.len() ==> ids@[a] < ids@[b],
                seen.finite(),
                count == seen.len(),
                count <= i,
                forall|id: u128| #[trigger]
                    seen.contains(id) <==> ids@.take(i as int).contains(id)
                        && self.by_id@[id].enabled,
        {
            let id: u128 = ids[i];
            proof {
                assert(!ids@.take(i as int).contains(id));
                assert forall|x: u128| ids@.take(i + 1).contains(x) <==> (ids@.take(
                    i as int,
                ).contains(x) || x == id) by {
                    assert(ids@.take(i + 1) =~= ids@.take(i as int).push(id));
                    if ids@.take(i as int).contains(x) {
                        let k = choose|k: int| 0 <= k < i && ids@.take(i as int)[k] == x;
                        assert(ids@.take(i + 1)[k] == x);
                    }
                    if x == id {
                        assert(ids@.take(i + 1)[i as int] == x);
                    }
                }
            }
            if let Some(e) = self.by_id.get(&id) {
                if e.enabled {
                    count = count + 1;
                    proof {
                        seen = seen.insert(id);
                    }
                }
            }
        }
        proof {
            assert(ids@.take(ids@.len() as int) =~= ids@);
            assert(seen =~= rules::enabled_ids(self@.exports));
        }
        count
    }
}

} // verus!
