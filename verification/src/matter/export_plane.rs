//! Bridged endpoint plane: one Matter endpoint per enabled on/off export.
//!
//! The control API rebuilds the slot table and pushes entity state into it; the Matter
//! stack reads it while it serves the data model, and turns queued changes into
//! subscription reports.
//!
//! Endpoint layout: 0 root, 1 aggregator, catalog `endpoint_id` + 1 for every bridged
//! export.
use super::device_types::{MatterDeviceType, DEV_REV_AGGREGATOR, DEV_TYPE_AGGREGATOR};
use super::endpoint_choice::{endpoint_at, winners};
use super::error_code::ErrorCode;
use super::layout::{
    AGGREGATOR_ENDPOINT_ID, BRIDGED_INFO_CLUSTER_ID, DESC_CLUSTER_ID, NODE_LABEL_ATTRIBUTE_ID,
    ON_OFF_ATTRIBUTE_ID, ON_OFF_CLUSTER_ID, ROOT_ENDPOINT_ID,
};
use super::on_off_map::{on_off_command, on_off_from_states};
use super::plane_rules::{OnOffCommand, PlaneView, ReadTarget};
use super::slot::{random_version, EndpointShape, ExportSlot, SlotKind, SlotView};
use super::{endpoint_choice, plane_rules, slot};
use crate::catalog::model;
use crate::catalog::{CommandRequest, Export, HaStateValue};
use std::collections::{BTreeSet, VecDeque};
use vstd::prelude::*;

verus! {

broadcast use {
    vstd::laws_cmp::group_laws_cmp,
    vstd::std_specs::btree::group_btree_axioms,
};

/// Slot table, command queue and wake-up flag of the bridge.
#[derive(Debug)]
pub struct ExportPlane {
    slots: Vec<ExportSlot>,
    known: BTreeSet<u128>,
    commands: VecDeque<CommandRequest>,
    config_dirty: bool,
    aggregator_dataver: u32,
    wake: bool,
}

impl View for ExportPlane {
    type V = PlaneView;

    closed spec fn view(&self) -> PlaneView {
        PlaneView {
            slots: slot::slot_views(self.slots@),
            known: self.known@,
            commands: self.commands@,
            config_dirty: self.config_dirty,
            aggregator_dataver: self.aggregator_dataver,
            wake: self.wake,
        }
    }
}

impl ExportPlane {
    /// Whether the plane is consistent.
    pub open spec fn wf(&self) -> bool {
        self@.wf()
    }

    /// An empty plane with the given data version for the aggregator.
    pub fn with_version(aggregator_dataver: u32) -> (r: Self)
        ensures
            r.wf(),
            r@ == (PlaneView {
                slots: Seq::empty(),
                known: Set::empty(),
                commands: Seq::empty(),
                config_dirty: false,
                aggregator_dataver,
                wake: false,
            }),
    {
        let r = ExportPlane {
            slots: Vec::new(),
            known: BTreeSet::new(),
            commands: VecDeque::new(),
            config_dirty: false,
            aggregator_dataver,
            wake: false,
        };
        assert(r@.slots =~= Seq::empty());
        r
    }

    /// An empty plane. The data version of its aggregator is random.
    pub fn new() -> (r: Self)
        ensures
            r.wf(),
            r@ == (PlaneView {
                slots: Seq::empty(),
                known: Set::empty(),
                commands: Seq::empty(),
                config_dirty: false,
                aggregator_dataver: r@.aggregator_dataver,
                wake: false,
            }),
    {
        Self::with_version(random_version())
    }

    /// The index of the first slot of an export, or the number of slots.
    fn find_for(&self, export_id: u128) -> (k: usize)
        ensures
            k == slot::index_for(self@.slots, export_id),
            k <= self.slots@.len(),
    {
        let mut k: usize = 0;
        while k < self.slots.len() && self.slots[k].export_id != export_id
            invariant
                k <= self.slots@.len(),
                forall|j: int| 0 <= j < k ==> (#[trigger] self@.slots[j]).export_id != export_id,
            decreases self.slots.len() - k,
        {
            assert(self@.slots[k as int] == self.slots@[k as int]@);
            k = k + 1;
        }
        proof {
            if k < self.slots@.len() {
                assert(self@.slots[k as int] == self.slots@[k as int]@);
            }
            slot::lemma_first_index(self@.slots, |s: SlotView| s.export_id == export_id, k as int);
        }
        k
    }

    /// The index of the slot that serves an endpoint, or the number of slots.
    fn find_at(&self, endpoint: u16) -> (k: usize)
        requires
            self.wf(),
        ensures
            k == slot::index_at(self@.slots, endpoint),
            k <= self.slots@.len(),
    {
        let mut lo: usize = 0;
        let mut hi: usize = self.slots.len();
        while lo < hi
            invariant
                self.wf(),
                lo <= hi <= self.slots@.len(),
                forall|j: int| 0 <= j < lo ==> (#[trigger] self@.slots[j]).matter_endpoint < endpoint,
                forall|j: int|
                    hi <= j < self@.slots.len() ==> endpoint <= (
                    #[trigger] self@.slots[j]).matter_endpoint,
            decreases hi - lo,
        {
            let mid: usize = lo + (hi - lo) / 2;
            assert(self@.slots[mid as int] == self.slots@[mid as int]@);
            if self.slots[mid].matter_endpoint < endpoint {
                lo = mid + 1;
            } else {
                hi = mid;
            }
        }
        let n: usize = self.slots.len();
        let ghost serving = |s: SlotView| s.matter_endpoint == endpoint;
        if lo < n && self.slots[lo].matter_endpoint == endpoint {
            proof {
                assert(self@.slots[lo as int] == self.slots@[lo as int]@);
                slot::lemma_first_index(self@.slots, serving, lo as int);
            }
            lo
        } else {
            proof {
                assert forall|j: int| 0 <= j < n implies !serving(#[trigger] self@.slots[j]) by {
                    if lo < n {
                        assert(self@.slots[lo as int] == self.slots@[lo as int]@);
                        if j > lo {
                            assert(self@.slots[lo as int].matter_endpoint
                                < self@.slots[j].matter_endpoint);
                        }
                    }
                }
                slot::lemma_first_index(self@.slots, serving, n as int);
            }
            n
        }
    }

    /// The first slot of an export.
    pub fn slot_for(&self, export_id: u128) -> (r: Option<&ExportSlot>)
        ensures
            match r {
                Some(s) => slot::slot_of(self@.slots, export_id) == Some(s@),
                None => slot::slot_of(self@.slots, export_id) is None,
            },
    {
        let k: usize = self.find_for(export_id);
        if k < self.slots.len() {
            assert(self@.slots[k as int] == self.slots@[k as int]@);
            Some(&self.slots[k])
        } else {
            None
        }
    }

    /// Rebuilds the slot table from the catalog. A slot belongs to its export: on/off value
    /// and data versions carry over, so that controllers never see an endpoint go backwards.
    pub fn set_exports(&mut self, exports: &[Export])
        requires
            old(self).wf(),
        ensures
            final(self).wf(),
            plane_rules::is_rebuilt_plane(
                old(self)@,
                model::export_views(exports@),
                final(self)@,
            ),
    {
        let ghost views = model::export_views(exports@);
        let chosen: Vec<usize> = winners(exports);
        let known: BTreeSet<u128> = known_ids(exports);
        let mut slots: Vec<ExportSlot> = Vec::new();
        for k in 0..chosen.len()
            invariant
                *self == *old(self),
                views == model::export_views(exports@),
                endpoint_choice::is_choice(views, exports@.len() as int, chosen@),
                slots@.len() == k,
                forall|a: int|
                    0 <= a < k ==> {
                        let i = chosen@[a] as int;
                        &&& slot::slot_endpoint(views[i]) == Some((#[trigger] slots@[a])@.matter_endpoint)
                        &&& slot::is_rebuilt(
                            views[i],
                            slots@[a]@.matter_endpoint,
                            slot::slot_of(old(self)@.slots, views[i].export_id),
                            slots@[a]@,
                        )
                    },
        {
            let i: usize = chosen[k];
            proof {
                assert(slot::wins_among(views, exports@.len() as int, chosen@[k as int] as int));
                assert(views[i as int] == exports@[i as int]@);
            }
            let endpoint: u16 = endpoint_at(exports, i);
            let slot: ExportSlot = ExportSlot::rebuild(
                &exports[i],
                endpoint,
                self.slot_for(exports[i].export_id),
            );
            slots.push(slot);
        }
        let moved: bool = !same_surfaces(&self.slots, &slots);
        let owed: bool = any_report(&slots);
        let ghost table = slot::slot_views(slots@);
        proof {
            endpoint_choice::lemma_is_slot_table(views, old(self)@.slots, table, chosen@);
        }
        self.slots = slots;
        self.known = known;
        if moved {
            self.aggregator_dataver = self.aggregator_dataver.wrapping_add(1);
            self.config_dirty = true;
        }
        if moved || owed {
            self.wake = true;
        }
    }

    /// Applies entity states to an export and says how many were applied: none for an
    /// export that the catalog does not know. Never queues a command, since Home Assistant
    /// is the source of the states.
    pub fn apply_state(&mut self, export_id: u128, states: &[HaStateValue]) -> (r: u32)
        requires
            old(self).wf(),
        ensures
            final(self).wf(),
            (final(self)@, r) == plane_rules::applied_state(old(self)@, export_id, states@),
    {
        let count: u32 = states.len() as u32;
        let k: usize = self.find_for(export_id);
        if k == self.slots.len() {
            return if self.known.contains(&export_id) {
                count
            } else {
                0
            };
        }
        assert(self@.slots[k as int] == self.slots@[k as int]@);
        if let Some(on) = on_off_from_states(&self.slots[k].export, states) {
            if self.slots[k].on() != on {
                let version: u32 = self.slots[k].functional_dataver.wrapping_add(1);
                self.slots[k].kind = SlotKind::OnOff { on };
                self.slots[k].functional_dataver = version;
                self.slots[k].report_on_off = true;
                self.wake = true;
                proof {
                    assert(self@.slots =~= plane_rules::applied_state(old(self)@, export_id, states@).0.slots);
                }
            }
        }
        count
    }

    /// Applies a controller's on/off write and queues the matching command. Says whether a
    /// slot serves the endpoint.
    pub fn apply_controller_on_off(&mut self, matter_endpoint: u16, on: bool) -> (r: bool)
        requires
            old(self).wf(),
        ensures
            final(self).wf(),
            (final(self)@, r) == plane_rules::switched(old(self)@, matter_endpoint, on),
    {
        let k: usize = self.find_at(matter_endpoint);
        if k == self.slots.len() {
            return false;
        }
        assert(self@.slots[k as int] == self.slots@[k as int]@);
        if self.slots[k].on() != on {
            let version: u32 = self.slots[k].functional_dataver.wrapping_add(1);
            self.slots[k].functional_dataver = version;
        }
        self.slots[k].kind = SlotKind::OnOff { on };
        self.commands.push_back(on_off_command(self.slots[k].export_id, on));
        proof {
            assert(self@.slots =~= plane_rules::switched(old(self)@, matter_endpoint, on).0.slots);
        }
        true
    }

    /// Takes the queue of commands from controllers.
    pub fn take_commands(&mut self) -> (r: Vec<CommandRequest>)
        ensures
            r@ == old(self)@.commands,
            final(self)@ == (PlaneView { commands: Seq::empty(), ..old(self)@ }),
    {
        let mut out: Vec<CommandRequest> = Vec::new();
        let ghost all = self@.commands;
        loop
            invariant
                out@ + self.commands@ == all,
                self@ == (PlaneView { commands: self.commands@, ..old(self)@ }),
            ensures
                out@ == all,
                self@ == (PlaneView { commands: Seq::empty(), ..old(self)@ }),
            decreases self.commands@.len(),
        {
            match self.commands.pop_front() {
                Some(c) => {
                    out.push(c);
                },
                None => {
                    break;
                },
            }
        }
        out
    }

    /// Takes the attribute changes that still owe controllers a report.
    pub fn drain_reports(&mut self) -> (r: Vec<(u16, u32, u32)>)
        requires
            old(self).wf(),
        ensures
            final(self).wf(),
            r@ == plane_rules::all_reports(old(self)@.slots),
            final(self)@ == (PlaneView {
                slots: old(self)@.slots.map_values(|s: SlotView| plane_rules::reported(s)),
                ..old(self)@
            }),
    {
        let mut out: Vec<(u16, u32, u32)> = Vec::new();
        let ghost was = self@.slots;
        let n: usize = self.slots.len();
        for k in 0..n
            invariant
                was == old(self)@.slots,
                n == was.len(),
                self.slots@.len() == was.len(),
                self@ == (PlaneView { slots: self@.slots, ..old(self)@ }),
                forall|j: int|
                    0 <= j < was.len() ==> #[trigger] self@.slots[j] == (if j < k {
                        plane_rules::reported(was[j])
                    } else {
                        was[j]
                    }),
                out@ == plane_rules::all_reports(was.take(k as int)),
        {
            let ghost before = self@.slots;
            assert(self@.slots[k as int] == self.slots@[k as int]@);
            let endpoint: u16 = self.slots[k].matter_endpoint;
            if self.slots[k].report_on_off {
                out.push((endpoint, ON_OFF_CLUSTER_ID, ON_OFF_ATTRIBUTE_ID));
            }
            if self.slots[k].report_node_label {
                out.push((endpoint, BRIDGED_INFO_CLUSTER_ID, NODE_LABEL_ATTRIBUTE_ID));
            }
            self.slots[k].report_on_off = false;
            self.slots[k].report_node_label = false;
            proof {
                assert(was.take(k + 1).drop_last() =~= was.take(k as int));
                assert(was.take(k + 1).last() == was[k as int]);
                assert(out@ =~= plane_rules::all_reports(was.take(k as int)) + plane_rules::own_reports(was[k as int]));
                assert(self@.slots =~= before.update(k as int, plane_rules::reported(was[k as int])));
            }
        }
        proof {
            assert(was.take(was.len() as int) =~= was);
            assert(self@.slots =~= was.map_values(|s: SlotView| plane_rules::reported(s)));
        }
        out
    }

    /// The endpoints of the bridged slots, by increasing id.
    pub fn endpoint_ids(&self) -> (r: Vec<u16>)
        ensures
            r@ == self@.slots.map_values(|s: SlotView| s.matter_endpoint),
    {
        let mut out: Vec<u16> = Vec::new();
        for k in 0..self.slots.len()
            invariant
                out@ =~= self@.slots.take(k as int).map_values(|s: SlotView| s.matter_endpoint),
        {
            assert(self@.slots[k as int] == self.slots@[k as int]@);
            out.push(self.slots[k].matter_endpoint);
        }
        assert(self@.slots.take(self@.slots.len() as int) =~= self@.slots);
        out
    }

    /// Moves every data version that a notification covers. All slots are visited, since one
    /// notification can cover several.
    pub fn bump_dataver(&mut self, endpoint: Option<u16>, cluster: Option<u32>)
        requires
            old(self).wf(),
        ensures
            final(self).wf(),
            final(self)@ == (PlaneView {
                slots: old(self)@.slots.map_values(|s: SlotView| plane_rules::bumped(s, endpoint, cluster)),
                aggregator_dataver: plane_rules::bumped_if(
                    old(self)@.aggregator_dataver,
                    plane_rules::covers_endpoint(endpoint, AGGREGATOR_ENDPOINT_ID) && plane_rules::covers_cluster(
                        cluster,
                        DESC_CLUSTER_ID,
                    ),
                ),
                ..old(self)@
            }),
    {
        let desc: bool = hits_cluster(cluster, DESC_CLUSTER_ID);
        let info: bool = hits_cluster(cluster, BRIDGED_INFO_CLUSTER_ID);
        let functional: bool = hits_cluster(cluster, ON_OFF_CLUSTER_ID);
        if hits_endpoint(endpoint, AGGREGATOR_ENDPOINT_ID) && desc {
            self.aggregator_dataver = self.aggregator_dataver.wrapping_add(1);
        }
        let ghost was = self@.slots;
        let ghost middle = self@;
        let n: usize = self.slots.len();
        for k in 0..n
            invariant
                was == old(self)@.slots,
                n == was.len(),
                self.slots@.len() == was.len(),
                self@ == (PlaneView { slots: self@.slots, ..middle }),
                desc == plane_rules::covers_cluster(cluster, DESC_CLUSTER_ID),
                info == plane_rules::covers_cluster(cluster, BRIDGED_INFO_CLUSTER_ID),
                functional == plane_rules::covers_cluster(cluster, ON_OFF_CLUSTER_ID),
                forall|j: int|
                    0 <= j < was.len() ==> #[trigger] self@.slots[j] == (if j < k {
                        plane_rules::bumped(was[j], endpoint, cluster)
                    } else {
                        was[j]
                    }),
        {
            let ghost before = self@.slots;
            assert(self@.slots[k as int] == self.slots@[k as int]@);
            if hits_endpoint(endpoint, self.slots[k].matter_endpoint) {
                if desc {
                    let version: u32 = self.slots[k].desc_dataver.wrapping_add(1);
                    self.slots[k].desc_dataver = version;
                }
                if info {
                    let version: u32 = self.slots[k].bridged_info_dataver.wrapping_add(1);
                    self.slots[k].bridged_info_dataver = version;
                }
                if functional {
                    let version: u32 = self.slots[k].functional_dataver.wrapping_add(1);
                    self.slots[k].functional_dataver = version;
                }
            }
            proof {
                assert(self@.slots =~= before.update(
                    k as int,
                    plane_rules::bumped(was[k as int], endpoint, cluster),
                ));
            }
        }
        proof {
            assert(self@.slots =~= was.map_values(|s: SlotView| plane_rules::bumped(s, endpoint, cluster)));
        }
    }
}

/// Whether an optional endpoint of a notification covers `id`.
fn hits_endpoint(endpoint: Option<u16>, id: u16) -> (r: bool)
    ensures
        r == plane_rules::covers_endpoint(endpoint, id),
{
    match endpoint {
        Some(e) => e == id,
        None => true,
    }
}

/// Whether an optional cluster of a notification covers `id`.
fn hits_cluster(cluster: Option<u32>, id: u32) -> (r: bool)
    ensures
        r == plane_rules::covers_cluster(cluster, id),
{
    match cluster {
        Some(c) => c == id,
        None => true,
    }
}

/// The identities of the exports.
fn known_ids(exports: &[Export]) -> (r: BTreeSet<u128>)
    ensures
        forall|id: u128| #[trigger]
            r@.contains(id) <==> exists|i: int|
                0 <= i < exports@.len() && (#[trigger] model::export_views(
                    exports@,
                )[i]).export_id == id,
{
    let ghost views = model::export_views(exports@);
    let mut out: BTreeSet<u128> = BTreeSet::new();
    for i in 0..exports.len()
        invariant
            views == model::export_views(exports@),
            forall|id: u128| #[trigger]
                out@.contains(id) <==> exists|k: int|
                    0 <= k < i && (#[trigger] views[k]).export_id == id,
    {
        let ghost was = out@;
        out.insert(exports[i].export_id);
        proof {
            assert(views[i as int].export_id == exports@[i as int].export_id);
            assert forall|id: u128| #[trigger] out@.contains(id) <==> exists|k: int|
                0 <= k < i + 1 && (#[trigger] views[k]).export_id == id by {
                if was.contains(id) {
                    let k = choose|k: int| 0 <= k < i && (#[trigger] views[k]).export_id == id;
                    assert(0 <= k < i + 1 && views[k].export_id == id);
                }
            }
        }
    }
    out
}

/// Whether two slot tables look the same to controllers.
fn same_surfaces(a: &Vec<ExportSlot>, b: &Vec<ExportSlot>) -> (r: bool)
    ensures
        r == (slot::surfaces(slot::slot_views(a@)) == slot::surfaces(slot::slot_views(b@))),
{
    let ghost x = slot::surfaces(slot::slot_views(a@));
    let ghost y = slot::surfaces(slot::slot_views(b@));
    if a.len() != b.len() {
        assert(x.len() != y.len());
        return false;
    }
    for k in 0..a.len()
        invariant
            a@.len() == b@.len(),
            x == slot::surfaces(slot::slot_views(a@)),
            y == slot::surfaces(slot::slot_views(b@)),
            forall|j: int| 0 <= j < k ==> #[trigger] x[j] == y[j],
    {
        assert(x[k as int] == a@[k as int]@.surface());
        assert(y[k as int] == b@[k as int]@.surface());
        if !a[k].same_surface(&b[k]) {
            assert(x[k as int] != y[k as int]);
            return false;
        }
    }
    assert(x =~= y);
    true
}

/// Whether some slot owes controllers a report.
fn any_report(slots: &Vec<ExportSlot>) -> (r: bool)
    ensures
        r == slot::reports_owed(slot::slot_views(slots@)),
{
    let ghost views = slot::slot_views(slots@);
    for k in 0..slots.len()
        invariant
            views == slot::slot_views(slots@),
            forall|j: int| 0 <= j < k ==> !(#[trigger] views[j]).owes_report(),
    {
        assert(views[k as int] == slots@[k as int]@);
        if slots[k].report_on_off || slots[k].report_node_label {
            assert(views[k as int].owes_report());
            return true;
        }
    }
    false
}

impl Default for ExportPlane {
    /// An empty plane. The data version of its aggregator is random.
    fn default() -> (r: Self)
        ensures
            r.wf(),
            r@ == (PlaneView {
                slots: Seq::empty(),
                known: Set::empty(),
                commands: Seq::empty(),
                config_dirty: false,
                aggregator_dataver: r@.aggregator_dataver,
                wake: false,
            }),
    {
        Self::new()
    }
}

/// Tells the requests that the plane answers from those of the root endpoint.
pub struct BridgedEndpointMatcher;

impl BridgedEndpointMatcher {
    /// Whether the plane answers for an endpoint: the aggregator and everything above it,
    /// and notifications that name no endpoint.
    pub fn matches(&self, endpoint: Option<u16>) -> (r: bool)
        ensures
            r == (endpoint is None || endpoint->0 != ROOT_ENDPOINT_ID),
    {
        match endpoint {
            Some(e) => e >= AGGREGATOR_ENDPOINT_ID,
            None => true,
        }
    }
}

impl ExportPlane {
    /// Answers a read of a cluster at an endpoint.
    pub fn read(&self, endpoint: u16, cluster: u32) -> (r: Result<ReadTarget, ErrorCode>)
        requires
            self.wf(),
        ensures
            plane_rules::is_read_of(self@, endpoint, cluster, r),
    {
        if endpoint == AGGREGATOR_ENDPOINT_ID {
            if cluster != DESC_CLUSTER_ID {
                return Err(ErrorCode::ClusterNotFound);
            }
            return Ok(ReadTarget::AggregatorDescriptor { dataver: self.aggregator_dataver });
        }
        let k: usize = self.find_at(endpoint);
        if k == self.slots.len() {
            return Err(ErrorCode::EndpointNotFound);
        }
        assert(self@.slots[k as int] == self.slots@[k as int]@);
        let slot: &ExportSlot = &self.slots[k];
        if cluster == DESC_CLUSTER_ID {
            Ok(ReadTarget::Descriptor { dataver: slot.desc_dataver })
        } else if cluster == BRIDGED_INFO_CLUSTER_ID {
            Ok(
                ReadTarget::BridgedInfo {
                    dataver: slot.bridged_info_dataver,
                    unique_id: slot.unique_id.clone(),
                    node_label: slot.node_label().to_owned(),
                },
            )
        } else if cluster == ON_OFF_CLUSTER_ID {
            Ok(ReadTarget::OnOff { dataver: slot.functional_dataver, on: slot.on() })
        } else {
            Err(ErrorCode::ClusterNotFound)
        }
    }

    /// Executes a command at an endpoint.
    pub fn invoke(&mut self, endpoint: u16, cluster: u32, command: OnOffCommand) -> (r: Result<
        (),
        ErrorCode,
    >)
        requires
            old(self).wf(),
        ensures
            final(self).wf(),
            (final(self)@, r) == plane_rules::invoked(old(self)@, endpoint, cluster, command),
    {
        if cluster != ON_OFF_CLUSTER_ID {
            return Err(ErrorCode::CommandNotFound);
        }
        let k: usize = self.find_at(endpoint);
        if k == self.slots.len() {
            return Err(ErrorCode::EndpointNotFound);
        }
        assert(self@.slots[k as int] == self.slots@[k as int]@);
        let on: bool = match command {
            OnOffCommand::Off => false,
            OnOffCommand::On => true,
            OnOffCommand::Toggle => !self.slots[k].on(),
            OnOffCommand::Lighting => {
                return Err(ErrorCode::CommandNotFound);
            },
        };
        self.apply_controller_on_off(endpoint, on);
        Ok(())
    }

    /// The endpoints of the exposed node: root, aggregator, and one per bridged slot, by
    /// increasing id.
    pub fn endpoints(&self) -> (r: Vec<EndpointShape>)
        requires
            self.wf(),
        ensures
            r@.len() == self@.slots.len() + 2,
            r@[0].is_root(),
            r@[1].is_aggregator(),
            forall|k: int|
                0 <= k < self@.slots.len() ==> (#[trigger] r@[k + 2]).is_of(self@.slots[k]),
            forall|a: int, b: int|
                0 <= a < b < r@.len() ==> (#[trigger] r@[a]).id < (#[trigger] r@[b]).id,
    {
        let mut out: Vec<EndpointShape> = Vec::new();
        out.push(
            EndpointShape {
                id: ROOT_ENDPOINT_ID,
                device_types: Vec::new(),
                clusters: Vec::new(),
            },
        );
        out.push(
            EndpointShape {
                id: AGGREGATOR_ENDPOINT_ID,
                device_types: vec![
                    MatterDeviceType { dtype: DEV_TYPE_AGGREGATOR, drev: DEV_REV_AGGREGATOR },
                ],
                clusters: vec![DESC_CLUSTER_ID],
            },
        );
        proof {
            assert(out@[1].device_types@ =~= seq![
                MatterDeviceType { dtype: DEV_TYPE_AGGREGATOR, drev: DEV_REV_AGGREGATOR },
            ]);
            assert(out@[1].clusters@ =~= seq![DESC_CLUSTER_ID]);
        }
        for k in 0..self.slots.len()
            invariant
                out@.len() == k + 2,
                out@[0].is_root(),
                out@[1].is_aggregator(),
                forall|j: int| 0 <= j < k ==> (#[trigger] out@[j + 2]).is_of(self@.slots[j]),
        {
            let ghost was = out@;
            assert(self@.slots[k as int] == self.slots@[k as int]@);
            out.push(self.slots[k].endpoint());
            assert forall|j: int| 0 <= j < k + 1 implies (#[trigger] out@[j + 2]).is_of(
                self@.slots[j],
            ) by {
                if j < k {
                    assert(out@[j + 2] == was[j + 2]);
                }
            }
        }
        assert forall|a: int, b: int| 0 <= a < b < out@.len() implies (#[trigger] out@[a]).id < (
        #[trigger] out@[b]).id by {
            if b >= 2 {
                assert(out@[b - 2 + 2].is_of(self@.slots[b - 2]));
                assert(self@.slots[b - 2].wf());
                if a >= 2 {
                    assert(out@[a - 2 + 2].is_of(self@.slots[a - 2]));
                }
            }
        }
        out
    }

    /// Whether the stack owes a bump of the configuration version.
    pub fn config_bump_pending(&self) -> (r: bool)
        ensures
            r == self@.config_dirty,
    {
        self.config_dirty
    }

    /// Takes note of an attempt to bump the configuration version, and says which clusters to
    /// report: the part lists of root and aggregator. A failed attempt stays owed, and is
    /// made again on the next change.
    pub fn config_bump_tried(&mut self, succeeded: bool) -> (r: Vec<(u16, u32)>)
        ensures
            r@ == seq![
                (ROOT_ENDPOINT_ID, DESC_CLUSTER_ID),
                (AGGREGATOR_ENDPOINT_ID, DESC_CLUSTER_ID),
            ],
            final(self)@ == (PlaneView {
                config_dirty: old(self)@.config_dirty && !succeeded,
                ..old(self)@
            }),
    {
        if succeeded {
            self.config_dirty = false;
        }
        vec![(ROOT_ENDPOINT_ID, DESC_CLUSTER_ID), (AGGREGATOR_ENDPOINT_ID, DESC_CLUSTER_ID)]
    }

    /// Takes the flag that the stack owes a bump of the configuration version.
    pub fn take_config_bump(&mut self) -> (r: bool)
        ensures
            r == old(self)@.config_dirty,
            final(self)@ == (PlaneView { config_dirty: false, ..old(self)@ }),
    {
        let was: bool = self.config_dirty;
        self.config_dirty = false;
        was
    }

    /// Takes the flag that the stack is to be woken.
    pub fn take_wake(&mut self) -> (r: bool)
        ensures
            r == old(self)@.wake,
            final(self)@ == (PlaneView { wake: false, ..old(self)@ }),
    {
        let was: bool = self.wake;
        self.wake = false;
        was
    }

    /// The on/off value of the slot of an export.
    pub fn on_for(&self, export_id: u128) -> (r: Option<bool>)
        ensures
            r == match slot::slot_of(self@.slots, export_id) {
                Some(s) => Some(s.on),
                None => None,
            },
    {
        match self.slot_for(export_id) {
            Some(s) => Some(s.on()),
            None => None,
        }
    }
}

} // verus!
