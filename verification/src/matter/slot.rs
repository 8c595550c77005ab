//! Slots: one bridged endpoint each, a catalog export with its Matter-side state.
use super::device_types::{
    MatterDeviceType, DEV_REV_AGGREGATOR, DEV_REV_BRIDGED_NODE, DEV_REV_ON_OFF_LIGHT,
    DEV_REV_ON_OFF_PLUG_IN_UNIT, DEV_TYPE_AGGREGATOR, DEV_TYPE_BRIDGED_NODE, DEV_TYPE_ON_OFF_LIGHT,
    DEV_TYPE_ON_OFF_PLUG_IN_UNIT,
};
use super::layout::{
    AGGREGATOR_ENDPOINT_ID, BRIDGED_INFO_CLUSTER_ID, DESC_CLUSTER_ID, NODE_LABEL_MAX_BYTES,
    ON_OFF_CLUSTER_ID, ROOT_ENDPOINT_ID,
};
use super::node_label::clamp_utf8;
use super::on_off_map::is_matter_on_off_export;
use super::{node_label, on_off_map};
use crate::catalog::model::ExportView;
use crate::catalog::{DeviceType, Export};
use crate::ids;
use crate::ids::simple;
use crate::text::str_eq;
use vstd::prelude::*;
use vstd::string::*;

verus! {

/// What a slot offers to controllers.
#[derive(Debug, Clone, Copy, PartialEq, Eq, Structural)]
pub enum SlotKind {
    /// An on/off export: light, switch, plug or outlet.
    OnOff { on: bool },
}

/// One bridged endpoint: a catalog export with its Matter-side state.
#[derive(Debug)]
pub struct ExportSlot {
    pub export_id: u128,
    /// Catalog `endpoint_id` + 1, so that the aggregator keeps endpoint 1.
    pub matter_endpoint: u16,
    pub kind: SlotKind,
    /// The catalog export behind this slot.
    pub export: Export,
    /// The `UniqueID` attribute: the export id without hyphens.
    pub unique_id: String,
    /// Data version of the Descriptor cluster.
    pub desc_dataver: u32,
    /// Data version of Bridged Device Basic Information.
    pub bridged_info_dataver: u32,
    /// Data version of the On/Off cluster.
    pub functional_dataver: u32,
    /// Whether the `OnOff` attribute still owes controllers a report.
    pub report_on_off: bool,
    /// Whether the `NodeLabel` attribute still owes controllers a report.
    pub report_node_label: bool,
}

/// What an [`ExportSlot`] holds.
#[verifier::ext_equal]
pub struct SlotView {
    pub export_id: u128,
    pub matter_endpoint: u16,
    pub on: bool,
    pub export: ExportView,
    pub unique_id: Seq<char>,
    pub desc_dataver: u32,
    pub bridged_info_dataver: u32,
    pub functional_dataver: u32,
    pub report_on_off: bool,
    pub report_node_label: bool,
}

impl View for ExportSlot {
    type V = SlotView;

    open spec fn view(&self) -> SlotView {
        SlotView {
            export_id: self.export_id,
            matter_endpoint: self.matter_endpoint,
            on: match self.kind {
                SlotKind::OnOff { on } => on,
            },
            export: self.export@,
            unique_id: self.unique_id@,
            desc_dataver: self.desc_dataver,
            bridged_info_dataver: self.bridged_info_dataver,
            functional_dataver: self.functional_dataver,
            report_on_off: self.report_on_off,
            report_node_label: self.report_node_label,
        }
    }
}

/// `n` + 1, from the greatest value back to 0.
pub open spec fn next_version(n: u32) -> u32 {
    if n == u32::MAX {
        0
    } else {
        (n + 1) as u32
    }
}

/// The label of a node: its name, clamped.
pub open spec fn node_label_of(name: Seq<char>) -> Seq<char> {
    node_label::clamped(name, NODE_LABEL_MAX_BYTES as int)
}

/// The concrete device type of an on/off export.
pub open spec fn device_type_of(t: DeviceType) -> u16 {
    if t == DeviceType::Light {
        DEV_TYPE_ON_OFF_LIGHT
    } else {
        DEV_TYPE_ON_OFF_PLUG_IN_UNIT
    }
}

impl SlotView {
    /// The identity of a slot as controllers see it: where it changes, the shape of the
    /// exposed node has moved.
    pub open spec fn surface(self) -> (u16, u128, u16) {
        (self.matter_endpoint, self.export_id, device_type_of(self.export.type_))
    }

    /// Whether the slot owes controllers a report.
    pub open spec fn owes_report(self) -> bool {
        self.report_on_off || self.report_node_label
    }

    /// Whether the slot is consistent with its export.
    pub open spec fn wf(self) -> bool {
        &&& self.matter_endpoint > AGGREGATOR_ENDPOINT_ID
        &&& self.export_id == self.export.export_id
        &&& self.unique_id == ids::simple_text(self.export_id)
        &&& on_off_map::bridged(self.export.enabled, self.export.type_)
        &&& self.export.endpoint_id == Some((self.matter_endpoint - 1) as u16)
    }
}

/// The slot for an export at an endpoint. A slot that the export had before keeps its
/// on/off value, its data versions and what it owes; a changed label or surface moves the
/// data version it belongs to. A new slot is off and has the data versions `fresh`.
pub open spec fn rebuilt(
    e: ExportView,
    endpoint: u16,
    previous: Option<SlotView>,
    fresh: (u32, u32, u32),
) -> SlotView {
    let base = SlotView {
        export_id: e.export_id,
        matter_endpoint: endpoint,
        on: false,
        export: e,
        unique_id: ids::simple_text(e.export_id),
        desc_dataver: fresh.0,
        bridged_info_dataver: fresh.1,
        functional_dataver: fresh.2,
        report_on_off: false,
        report_node_label: false,
    };
    match previous {
        None => base,
        Some(p) => {
            let relabeled = node_label_of(p.export.name) != node_label_of(e.name);
            SlotView {
                on: p.on,
                desc_dataver: if p.surface() != base.surface() {
                    next_version(p.desc_dataver)
                } else {
                    p.desc_dataver
                },
                bridged_info_dataver: if relabeled {
                    next_version(p.bridged_info_dataver)
                } else {
                    p.bridged_info_dataver
                },
                functional_dataver: p.functional_dataver,
                report_on_off: p.report_on_off,
                report_node_label: p.report_node_label || relabeled,
                ..base
            }
        },
    }
}

/// Whether `slot` is the slot for an export at an endpoint, for some fresh data versions.
pub open spec fn is_rebuilt(
    e: ExportView,
    endpoint: u16,
    previous: Option<SlotView>,
    slot: SlotView,
) -> bool {
    exists|fresh: (u32, u32, u32)| slot == #[trigger] rebuilt(e, endpoint, previous, fresh)
}

/// The index of the first slot for which `f` holds, or the number of slots.
pub open spec fn first_index(slots: Seq<SlotView>, f: spec_fn(SlotView) -> bool) -> int
    decreases slots.len(),
{
    if slots.len() == 0 || f(slots[0]) {
        0
    } else {
        1 + first_index(slots.drop_first(), f)
    }
}

/// The index of the first slot of an export, or the number of slots.
pub open spec fn index_for(slots: Seq<SlotView>, export_id: u128) -> int {
    first_index(slots, |s: SlotView| s.export_id == export_id)
}

/// The index of the slot that serves an endpoint, or the number of slots.
pub open spec fn index_at(slots: Seq<SlotView>, endpoint: u16) -> int {
    first_index(slots, |s: SlotView| s.matter_endpoint == endpoint)
}

/// The first slot of an export, where it has one.
pub open spec fn slot_of(slots: Seq<SlotView>, export_id: u128) -> Option<SlotView> {
    if index_for(slots, export_id) < slots.len() {
        Some(slots[index_for(slots, export_id)])
    } else {
        None
    }
}

/// What makes an index the first.
pub proof fn lemma_first_index(slots: Seq<SlotView>, f: spec_fn(SlotView) -> bool, i: int)
    requires
        0 <= i <= slots.len(),
        forall|k: int| 0 <= k < i ==> !f(#[trigger] slots[k]),
        i < slots.len() ==> f(slots[i]),
    ensures
        first_index(slots, f) == i,
    decreases i,
{
    if i > 0 {
        let rest = slots.drop_first();
        assert(!f(slots[0]));
        assert forall|k: int| 0 <= k < i - 1 implies !f(#[trigger] rest[k]) by {
            assert(rest[k] == slots[k + 1]);
        }
        lemma_first_index(rest, f, i - 1);
    }
}

/// What the first index is.
pub proof fn lemma_first_index_meaning(slots: Seq<SlotView>, f: spec_fn(SlotView) -> bool)
    ensures
        0 <= first_index(slots, f) <= slots.len(),
        forall|k: int| 0 <= k < first_index(slots, f) ==> !f(#[trigger] slots[k]),
        first_index(slots, f) < slots.len() ==> f(slots[first_index(slots, f)]),
    decreases slots.len(),
{
    if slots.len() > 0 && !f(slots[0]) {
        let rest = slots.drop_first();
        lemma_first_index_meaning(rest, f);
        assert forall|k: int| 0 <= k < first_index(slots, f) implies !f(#[trigger] slots[k]) by {
            if k > 0 {
                assert(slots[k] == rest[k - 1]);
            }
        }
    }
}

/// The endpoint that an export asks for: one past its catalog endpoint id, where the
/// export is published and the id is neither that of the aggregator nor past the last.
pub open spec fn slot_endpoint(e: ExportView) -> Option<u16> {
    if on_off_map::bridged(e.enabled, e.type_) && e.endpoint_id is Some && 1
        <= e.endpoint_id->0 < u16::MAX {
        Some((e.endpoint_id->0 + 1) as u16)
    } else {
        None
    }
}

/// Whether export `i`, among the first `n`, gets the endpoint that it asks for: of several
/// that ask for the same one, the one with the least identity does, the first of equals.
pub open spec fn wins_among(exports: Seq<ExportView>, n: int, i: int) -> bool {
    &&& 0 <= i < n
    &&& slot_endpoint(exports[i]) is Some
    &&& forall|j: int|
        0 <= j < n && j != i && slot_endpoint(#[trigger] exports[j]) == slot_endpoint(exports[i])
            ==> exports[i].export_id < exports[j].export_id || (exports[i].export_id
            == exports[j].export_id && i < j)
}

/// Whether export `i` gets the endpoint that it asks for.
pub open spec fn wins(exports: Seq<ExportView>, i: int) -> bool {
    wins_among(exports, exports.len() as int, i)
}

/// Whether endpoints increase along the slots.
pub open spec fn increasing(slots: Seq<SlotView>) -> bool {
    forall|a: int, b: int|
        0 <= a < b < slots.len() ==> (#[trigger] slots[a]).matter_endpoint < (
        #[trigger] slots[b]).matter_endpoint
}

/// Whether `slot` belongs to an export that gets its endpoint, after `previous`.
pub open spec fn comes_from(
    exports: Seq<ExportView>,
    previous: Seq<SlotView>,
    slot: SlotView,
) -> bool {
    exists|i: int|
        {
            &&& #[trigger] wins(exports, i)
            &&& slot_endpoint(exports[i]) == Some(slot.matter_endpoint)
            &&& is_rebuilt(
                exports[i],
                slot.matter_endpoint,
                slot_of(previous, exports[i].export_id),
                slot,
            )
        }
}

/// Whether a slot serves the endpoint.
pub open spec fn serves(slots: Seq<SlotView>, endpoint: u16) -> bool {
    exists|k: int| 0 <= k < slots.len() && (#[trigger] slots[k]).matter_endpoint == endpoint
}

/// Whether `slots` is the slot table for `exports` after `previous`: one slot for each
/// export that gets its endpoint, by increasing endpoint.
pub open spec fn is_slot_table(
    exports: Seq<ExportView>,
    previous: Seq<SlotView>,
    slots: Seq<SlotView>,
) -> bool {
    &&& increasing(slots)
    &&& forall|k: int|
        0 <= k < slots.len() ==> #[trigger] comes_from(exports, previous, slots[k])
    &&& forall|i: int| #![trigger serves(slots, slot_endpoint(exports[i])->0)]
        wins(exports, i) ==> serves(slots, slot_endpoint(exports[i])->0)
}

/// The surfaces of the slots.
pub open spec fn surfaces(slots: Seq<SlotView>) -> Seq<(u16, u128, u16)> {
    slots.map_values(|s: SlotView| s.surface())
}

/// The views of a sequence of slots.
pub open spec fn slot_views(slots: Seq<ExportSlot>) -> Seq<SlotView> {
    slots.map_values(|s: ExportSlot| s@)
}

/// Whether some slot owes controllers a report.
pub open spec fn reports_owed(slots: Seq<SlotView>) -> bool {
    exists|k: int| 0 <= k < slots.len() && (#[trigger] slots[k]).owes_report()
}

/// `rand::random::<u32>`: any 32-bit number. Nothing holds of all outcomes.
#[verifier::external_body]
pub(crate) fn random_version() -> (r: u32) {
    rand::random()
}

/// The endpoint that an export asks for.
pub fn wanted_endpoint(e: &Export) -> (r: Option<u16>)
    ensures
        r == slot_endpoint(e@),
{
    if !is_matter_on_off_export(e) {
        return None;
    }
    match e.endpoint_id {
        None => None,
        Some(id) => match id.checked_add(1) {
            None => None,
            Some(endpoint) => if endpoint <= AGGREGATOR_ENDPOINT_ID {
                None
            } else {
                Some(endpoint)
            },
        },
    }
}

impl ExportSlot {
    /// The export name as the catalog has it.
    pub fn name(&self) -> (r: &str)
        ensures
            r@ == self@.export.name,
    {
        self.export.name.as_str()
    }

    /// The on/off value as controllers see it.
    pub fn on(&self) -> (r: bool)
        ensures
            r == self@.on,
    {
        match self.kind {
            SlotKind::OnOff { on } => on,
        }
    }

    /// The node label.
    pub fn node_label(&self) -> (r: &str)
        ensures
            r@ == node_label_of(self@.export.name),
    {
        clamp_utf8(self.export.name.as_str(), NODE_LABEL_MAX_BYTES)
    }

    /// The concrete device type.
    fn dtype(&self) -> (r: u16)
        ensures
            r == device_type_of(self@.export.type_),
    {
        match self.export.type_ {
            DeviceType::Light => DEV_TYPE_ON_OFF_LIGHT,
            _ => DEV_TYPE_ON_OFF_PLUG_IN_UNIT,
        }
    }

    /// Whether two slots look the same to controllers.
    pub fn same_surface(&self, other: &ExportSlot) -> (r: bool)
        ensures
            r == (self@.surface() == other@.surface()),
    {
        self.matter_endpoint == other.matter_endpoint && self.export_id == other.export_id
            && self.dtype() == other.dtype()
    }

    /// Builds the slot of an export with the given data versions for a new one.
    pub fn rebuild_with(
        export: &Export,
        matter_endpoint: u16,
        previous: Option<&ExportSlot>,
        fresh: (u32, u32, u32),
    ) -> (r: ExportSlot)
        ensures
            r@ == rebuilt(
                export@,
                matter_endpoint,
                match previous {
                    Some(p) => Some(p@),
                    None => None,
                },
                fresh,
            ),
    {
        let mut slot = ExportSlot {
            export_id: export.export_id,
            matter_endpoint,
            kind: SlotKind::OnOff { on: false },
            export: export.clone(),
            unique_id: simple(export.export_id),
            desc_dataver: fresh.0,
            bridged_info_dataver: fresh.1,
            functional_dataver: fresh.2,
            report_on_off: false,
            report_node_label: false,
        };
        if let Some(p) = previous {
            let relabeled: bool = !str_eq(p.node_label(), slot.node_label());
            let moved: bool = !p.same_surface(&slot);
            slot.kind = SlotKind::OnOff { on: p.on() };
            slot.desc_dataver = if moved {
                p.desc_dataver.wrapping_add(1)
            } else {
                p.desc_dataver
            };
            slot.bridged_info_dataver = if relabeled {
                p.bridged_info_dataver.wrapping_add(1)
            } else {
                p.bridged_info_dataver
            };
            slot.functional_dataver = p.functional_dataver;
            slot.report_on_off = p.report_on_off;
            slot.report_node_label = p.report_node_label || relabeled;
        }
        slot
    }

    /// Builds the slot of an export; a new one gets random data versions.
    pub fn rebuild(export: &Export, matter_endpoint: u16, previous: Option<&ExportSlot>) -> (r:
        ExportSlot)
        ensures
            is_rebuilt(
                export@,
                matter_endpoint,
                match previous {
                    Some(p) => Some(p@),
                    None => None,
                },
                r@,
            ),
    {
        let fresh: (u32, u32, u32) = match previous {
            Some(_) => (0, 0, 0),
            None => (random_version(), random_version(), random_version()),
        };
        Self::rebuild_with(export, matter_endpoint, previous, fresh)
    }
}

/// One endpoint of the exposed node: its device types, the concrete one first, and its
/// clusters.
#[derive(Debug, PartialEq, Eq)]
pub struct EndpointShape {
    pub id: u16,
    pub device_types: Vec<MatterDeviceType>,
    pub clusters: Vec<u32>,
}

impl EndpointShape {
    /// Whether this is the shape of the root, whose contents the Matter stack supplies.
    pub open spec fn is_root(self) -> bool {
        self.id == ROOT_ENDPOINT_ID && self.device_types@.len() == 0 && self.clusters@.len() == 0
    }

    /// Whether this is the shape of the aggregator.
    pub open spec fn is_aggregator(self) -> bool {
        &&& self.id == AGGREGATOR_ENDPOINT_ID
        &&& self.device_types@ == seq![
            MatterDeviceType { dtype: DEV_TYPE_AGGREGATOR, drev: DEV_REV_AGGREGATOR },
        ]
        &&& self.clusters@ == seq![DESC_CLUSTER_ID]
    }

    /// Whether this is the shape of a bridged slot.
    pub open spec fn is_of(self, s: SlotView) -> bool {
        &&& self.id == s.matter_endpoint
        &&& self.device_types@ == seq![
            (if s.export.type_ == DeviceType::Light {
                MatterDeviceType { dtype: DEV_TYPE_ON_OFF_LIGHT, drev: DEV_REV_ON_OFF_LIGHT }
            } else {
                MatterDeviceType {
                    dtype: DEV_TYPE_ON_OFF_PLUG_IN_UNIT,
                    drev: DEV_REV_ON_OFF_PLUG_IN_UNIT,
                }
            }),
            MatterDeviceType { dtype: DEV_TYPE_BRIDGED_NODE, drev: DEV_REV_BRIDGED_NODE },
        ]
        &&& self.clusters@ == seq![DESC_CLUSTER_ID, BRIDGED_INFO_CLUSTER_ID, ON_OFF_CLUSTER_ID]
    }
}

impl ExportSlot {
    /// The concrete device type, then `Bridged Node`.
    fn device_types(&self) -> (r: Vec<MatterDeviceType>)
        ensures
            r@ == seq![
                (if self@.export.type_ == DeviceType::Light {
                    MatterDeviceType { dtype: DEV_TYPE_ON_OFF_LIGHT, drev: DEV_REV_ON_OFF_LIGHT }
                } else {
                    MatterDeviceType {
                        dtype: DEV_TYPE_ON_OFF_PLUG_IN_UNIT,
                        drev: DEV_REV_ON_OFF_PLUG_IN_UNIT,
                    }
                }),
                MatterDeviceType { dtype: DEV_TYPE_BRIDGED_NODE, drev: DEV_REV_BRIDGED_NODE },
            ],
    {
        let concrete = match self.export.type_ {
            DeviceType::Light => MatterDeviceType {
                dtype: DEV_TYPE_ON_OFF_LIGHT,
                drev: DEV_REV_ON_OFF_LIGHT,
            },
            _ => MatterDeviceType {
                dtype: DEV_TYPE_ON_OFF_PLUG_IN_UNIT,
                drev: DEV_REV_ON_OFF_PLUG_IN_UNIT,
            },
        };
        vec![
            concrete,
            MatterDeviceType { dtype: DEV_TYPE_BRIDGED_NODE, drev: DEV_REV_BRIDGED_NODE },
        ]
    }

    /// The shape of the endpoint.
    pub fn endpoint(&self) -> (r: EndpointShape)
        ensures
            r.is_of(self@),
    {
        EndpointShape {
            id: self.matter_endpoint,
            device_types: self.device_types(),
            clusters: vec![DESC_CLUSTER_ID, BRIDGED_INFO_CLUSTER_ID, ON_OFF_CLUSTER_ID],
        }
    }
}

} // verus!
