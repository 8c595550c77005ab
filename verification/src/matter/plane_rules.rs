//! What each operation of the export plane does, as functions on its state.
use super::error_code::ErrorCode;
use super::layout::{
    AGGREGATOR_ENDPOINT_ID, BRIDGED_INFO_CLUSTER_ID, DESC_CLUSTER_ID, NODE_LABEL_ATTRIBUTE_ID,
    ON_OFF_ATTRIBUTE_ID, ON_OFF_CLUSTER_ID,
};
use super::slot::SlotView;
use super::{on_off_map, slot};
use crate::catalog::model::ExportView;
use crate::catalog::{CommandRequest, HaStateValue};
use vstd::prelude::*;

verus! {

/// The state of the plane.
#[verifier::ext_equal]
pub struct PlaneView {
    /// Bridged slots by increasing endpoint.
    pub slots: Seq<SlotView>,
    /// Every export that the catalog knows, bridged or not.
    pub known: Set<u128>,
    /// Commands from controllers that Home Assistant has not fetched yet.
    pub commands: Seq<CommandRequest>,
    /// Whether the stack owes a bump of the configuration version.
    pub config_dirty: bool,
    /// Data version of the aggregator's Descriptor cluster.
    pub aggregator_dataver: u32,
    /// Whether the stack is to be woken.
    pub wake: bool,
}

impl PlaneView {
    /// Whether the slots are consistent and their endpoints increase.
    pub open spec fn wf(self) -> bool {
        &&& slot::increasing(self.slots)
        &&& forall|k: int| 0 <= k < self.slots.len() ==> (#[trigger] self.slots[k]).wf()
    }
}

/// Whether `after` is the plane `before` once its slot table was rebuilt from `exports`. A
/// changed surface moves the aggregator's data version and owes a configuration bump; it
/// and owed reports wake the stack.
pub open spec fn is_rebuilt_plane(
    before: PlaneView,
    exports: Seq<ExportView>,
    after: PlaneView,
) -> bool {
    let moved = slot::surfaces(before.slots) != slot::surfaces(after.slots);
    &&& slot::is_slot_table(exports, before.slots, after.slots)
    &&& forall|id: u128| #[trigger]
        after.known.contains(id) <==> exists|i: int|
            0 <= i < exports.len() && (#[trigger] exports[i]).export_id == id
    &&& after.commands == before.commands
    &&& after.config_dirty == (before.config_dirty || moved)
    &&& after.aggregator_dataver == (if moved {
        slot::next_version(before.aggregator_dataver)
    } else {
        before.aggregator_dataver
    })
    &&& after.wake == (before.wake || moved || slot::reports_owed(after.slots))
}

/// Applying entity states to an export: the plane afterwards, and how many states were
/// applied. A value that moves the slot moves its data version, owes a report and wakes
/// the stack. No command comes of it.
pub open spec fn applied_state(
    p: PlaneView,
    export_id: u128,
    states: Seq<HaStateValue>,
) -> (PlaneView, u32) {
    let k = slot::index_for(p.slots, export_id);
    let slot = p.slots[k];
    let value = on_off_map::resolved_on(
        slot.export.type_,
        slot.export.primary_entity_id,
        states,
    );
    let count = states.len() as u32;
    if k == p.slots.len() {
        (
            p,
            if p.known.contains(export_id) {
                count
            } else {
                0
            },
        )
    } else if value is Some && value->0 != slot.on {
        (
            PlaneView {
                slots: p.slots.update(
                    k,
                    SlotView {
                        on: value->0,
                        functional_dataver: slot::next_version(slot.functional_dataver),
                        report_on_off: true,
                        ..slot
                    },
                ),
                wake: true,
                ..p
            },
            count,
        )
    } else {
        (p, count)
    }
}

/// A controller switching the device at an endpoint: the plane afterwards, and whether a
/// slot serves the endpoint. The matching command is queued either way.
pub open spec fn switched(p: PlaneView, endpoint: u16, on: bool) -> (PlaneView, bool) {
    let k = slot::index_at(p.slots, endpoint);
    let slot = p.slots[k];
    if k == p.slots.len() {
        (p, false)
    } else {
        (
            PlaneView {
                slots: p.slots.update(
                    k,
                    SlotView {
                        on,
                        functional_dataver: if slot.on != on {
                            slot::next_version(slot.functional_dataver)
                        } else {
                            slot.functional_dataver
                        },
                        ..slot
                    },
                ),
                commands: p.commands.push(
                    on_off_map::on_off_request(slot.export_id, on),
                ),
                ..p
            },
            true,
        )
    }
}

/// The reports that a slot owes: its on/off value, then its label.
pub open spec fn own_reports(s: SlotView) -> Seq<(u16, u32, u32)> {
    (if s.report_on_off {
        seq![(s.matter_endpoint, ON_OFF_CLUSTER_ID, ON_OFF_ATTRIBUTE_ID)]
    } else {
        Seq::empty()
    }) + (if s.report_node_label {
        seq![(s.matter_endpoint, BRIDGED_INFO_CLUSTER_ID, NODE_LABEL_ATTRIBUTE_ID)]
    } else {
        Seq::empty()
    })
}

/// The reports that all slots owe, slot by slot.
pub open spec fn all_reports(slots: Seq<SlotView>) -> Seq<(u16, u32, u32)>
    decreases slots.len(),
{
    if slots.len() == 0 {
        Seq::empty()
    } else {
        all_reports(slots.drop_last()) + own_reports(slots.last())
    }
}

/// A slot that owes nothing.
pub open spec fn reported(s: SlotView) -> SlotView {
    SlotView { report_on_off: false, report_node_label: false, ..s }
}

/// Whether a notification covers endpoint `id`: it names that one, or none.
pub open spec fn covers_endpoint(endpoint: Option<u16>, id: u16) -> bool {
    endpoint is None || endpoint->0 == id
}

/// Whether a notification covers cluster `id`: it names that one, or none.
pub open spec fn covers_cluster(cluster: Option<u32>, id: u32) -> bool {
    cluster is None || cluster->0 == id
}

/// `n`, or its successor where `hit`.
pub open spec fn bumped_if(n: u32, hit: bool) -> u32 {
    if hit {
        slot::next_version(n)
    } else {
        n
    }
}

/// A slot after a notification: every data version that it covers has moved.
pub open spec fn bumped(s: SlotView, endpoint: Option<u16>, cluster: Option<u32>) -> SlotView {
    let here = covers_endpoint(endpoint, s.matter_endpoint);
    SlotView {
        desc_dataver: bumped_if(s.desc_dataver, here && covers_cluster(cluster, DESC_CLUSTER_ID)),
        bridged_info_dataver: bumped_if(
            s.bridged_info_dataver,
            here && covers_cluster(cluster, BRIDGED_INFO_CLUSTER_ID),
        ),
        functional_dataver: bumped_if(
            s.functional_dataver,
            here && covers_cluster(cluster, ON_OFF_CLUSTER_ID),
        ),
        ..s
    }
}

/// What answers a read: a cluster with its data version and values.
#[derive(Debug, PartialEq, Eq)]
pub enum ReadTarget {
    /// The Descriptor cluster of the aggregator.
    AggregatorDescriptor { dataver: u32 },
    /// The Descriptor cluster of a bridged endpoint.
    Descriptor { dataver: u32 },
    /// Bridged Device Basic Information.
    BridgedInfo { dataver: u32, unique_id: String, node_label: String },
    /// The On/Off cluster.
    OnOff { dataver: u32, on: bool },
}

/// Whether `r` is the answer to a read of a cluster at an endpoint.
pub open spec fn is_read_of(
    p: PlaneView,
    endpoint: u16,
    cluster: u32,
    r: Result<ReadTarget, ErrorCode>,
) -> bool {
    let k = slot::index_at(p.slots, endpoint);
    let slot = p.slots[k];
    if endpoint == AGGREGATOR_ENDPOINT_ID {
        if cluster == DESC_CLUSTER_ID {
            r == Ok::<ReadTarget, ErrorCode>(
                ReadTarget::AggregatorDescriptor { dataver: p.aggregator_dataver },
            )
        } else {
            r == Err::<ReadTarget, ErrorCode>(ErrorCode::ClusterNotFound)
        }
    } else if k == p.slots.len() {
        r == Err::<ReadTarget, ErrorCode>(ErrorCode::EndpointNotFound)
    } else if cluster == DESC_CLUSTER_ID {
        r == Ok::<ReadTarget, ErrorCode>(ReadTarget::Descriptor { dataver: slot.desc_dataver })
    } else if cluster == BRIDGED_INFO_CLUSTER_ID {
        r matches Ok(ReadTarget::BridgedInfo { dataver, unique_id, node_label }) && dataver
            == slot.bridged_info_dataver && unique_id@ == slot.unique_id && node_label@
            == slot::node_label_of(slot.export.name)
    } else if cluster == ON_OFF_CLUSTER_ID {
        r == Ok::<ReadTarget, ErrorCode>(
            ReadTarget::OnOff { dataver: slot.functional_dataver, on: slot.on },
        )
    } else {
        r == Err::<ReadTarget, ErrorCode>(ErrorCode::ClusterNotFound)
    }
}

/// The commands of the On/Off cluster.
#[derive(Debug, Clone, Copy, PartialEq, Eq, Structural)]
pub enum OnOffCommand {
    Off,
    On,
    Toggle,
    /// A command of the Lighting feature, which is not offered.
    Lighting,
}

/// A command at an endpoint: the plane afterwards, and the answer.
pub open spec fn invoked(
    p: PlaneView,
    endpoint: u16,
    cluster: u32,
    command: OnOffCommand,
) -> (PlaneView, Result<(), ErrorCode>) {
    let k = slot::index_at(p.slots, endpoint);
    if cluster != ON_OFF_CLUSTER_ID {
        (p, Err(ErrorCode::CommandNotFound))
    } else if k == p.slots.len() {
        (p, Err(ErrorCode::EndpointNotFound))
    } else {
        match command {
            OnOffCommand::Off => (switched(p, endpoint, false).0, Ok(())),
            OnOffCommand::On => (switched(p, endpoint, true).0, Ok(())),
            OnOffCommand::Toggle => (switched(p, endpoint, !p.slots[k].on).0, Ok(())),
            OnOffCommand::Lighting => (p, Err(ErrorCode::CommandNotFound)),
        }
    }
}

} // verus!
