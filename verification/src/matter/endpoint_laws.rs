//! What controllers and Home Assistant see of the endpoints, one by one.
use super::device_types::MatterDeviceType;
use super::error_code::ErrorCode;
use super::plane_rules::{OnOffCommand, PlaneView, ReadTarget};
use super::slot::{EndpointShape, ExportSlot, SlotKind, SlotView};
use super::{node_label, on_off_map, plane_rules, slot};
use crate::catalog::model::ExportView;
use crate::catalog::{CommandKind, CommandRequest, DeviceType, HaStateValue};
use crate::ids;
use vstd::prelude::*;

verus! {

/// The contents of a slot are those of its fields.
pub proof fn law_slot_contents(s: ExportSlot)
    ensures
        s@.export_id == s.export_id,
        s@.matter_endpoint == s.matter_endpoint,
        s.kind == (SlotKind::OnOff { on: s@.on }),
        s@.export == s.export@,
        s@.unique_id == s.unique_id@,
        s@.desc_dataver == s.desc_dataver,
        s@.bridged_info_dataver == s.bridged_info_dataver,
        s@.functional_dataver == s.functional_dataver,
        s@.report_on_off == s.report_on_off,
        s@.report_node_label == s.report_node_label,
{
}

/// Whether slot `k` is the one that serves an endpoint.
pub open spec fn serves_at(slots: Seq<SlotView>, endpoint: u16, k: int) -> bool {
    &&& 0 <= k < slots.len()
    &&& slots[k].matter_endpoint == endpoint
    &&& forall|j: int|
        0 <= j < slots.len() && j != k ==> (#[trigger] slots[j]).matter_endpoint != endpoint
}

/// Whether no slot serves an endpoint.
pub open spec fn served_by_none(slots: Seq<SlotView>, endpoint: u16) -> bool {
    forall|j: int| 0 <= j < slots.len() ==> (#[trigger] slots[j]).matter_endpoint != endpoint
}

proof fn lemma_serves_at(slots: Seq<SlotView>, endpoint: u16, k: int)
    requires
        serves_at(slots, endpoint, k),
    ensures
        slot::index_at(slots, endpoint) == k,
{
    slot::lemma_first_index(slots, |s: SlotView| s.matter_endpoint == endpoint, k);
}

proof fn lemma_served_by_none(slots: Seq<SlotView>, endpoint: u16)
    requires
        served_by_none(slots, endpoint),
    ensures
        slot::index_at(slots, endpoint) == slots.len(),
{
    slot::lemma_first_index(
        slots,
        |s: SlotView| s.matter_endpoint == endpoint,
        slots.len() as int,
    );
}

/// Whether `after` is `before` but for slot `k`, which has the value `on`, and for one more
/// queued command: the switching of the export of that slot to that value. The data version
/// of the On/Off cluster has moved by one where the value has.
pub open spec fn switched_at(before: PlaneView, after: PlaneView, k: int, on: bool) -> bool {
    let was = before.slots[k];
    let now = after.slots[k];
    &&& after.slots.len() == before.slots.len()
    &&& forall|j: int|
        0 <= j < before.slots.len() && j != k ==> #[trigger] after.slots[j] == before.slots[j]
    &&& now.on == on
    &&& was.on == on ==> now.functional_dataver == was.functional_dataver
    &&& was.on != on ==> now.functional_dataver == (was.functional_dataver + 1) % 0x1_0000_0000
    &&& now.export_id == was.export_id
    &&& now.matter_endpoint == was.matter_endpoint
    &&& now.export == was.export
    &&& now.unique_id == was.unique_id
    &&& now.desc_dataver == was.desc_dataver
    &&& now.bridged_info_dataver == was.bridged_info_dataver
    &&& now.report_on_off == was.report_on_off
    &&& now.report_node_label == was.report_node_label
    &&& after.commands.len() == before.commands.len() + 1
    &&& forall|j: int|
        0 <= j < before.commands.len() ==> #[trigger] after.commands[j] == before.commands[j]
    &&& after.commands.last() == (CommandRequest {
        export_id: was.export_id,
        kind: CommandKind::OnOff,
        on: Some(on),
        level: None,
        position: None,
    })
    &&& after.known == before.known
    &&& after.config_dirty == before.config_dirty
    &&& after.aggregator_dataver == before.aggregator_dataver
    &&& after.wake == before.wake
}

/// A command acts at the endpoint at which it is given: `On` leaves the slot there on, `Off`
/// leaves it off, `Toggle` leaves it the other way round; the one command queued names the
/// export of that slot and its new value, and no other slot changes.
pub proof fn law_command_acts_at_its_endpoint(p: PlaneView, endpoint: u16, k: int)
    requires
        serves_at(p.slots, endpoint, k),
    ensures
        plane_rules::invoked(p, endpoint, 0x0006, OnOffCommand::On).1 is Ok,
        switched_at(p, plane_rules::invoked(p, endpoint, 0x0006, OnOffCommand::On).0, k, true),
        plane_rules::invoked(p, endpoint, 0x0006, OnOffCommand::Off).1 is Ok,
        switched_at(p, plane_rules::invoked(p, endpoint, 0x0006, OnOffCommand::Off).0, k, false),
        plane_rules::invoked(p, endpoint, 0x0006, OnOffCommand::Toggle).1 is Ok,
        switched_at(
            p,
            plane_rules::invoked(p, endpoint, 0x0006, OnOffCommand::Toggle).0,
            k,
            !p.slots[k].on,
        ),
{
    lemma_serves_at(p.slots, endpoint, k);
}

/// A command for another cluster than On/Off, one of the Lighting feature, and one at an
/// endpoint that no slot serves are refused, and change nothing.
pub proof fn law_refused_command_changes_nothing(
    p: PlaneView,
    endpoint: u16,
    cluster: u32,
    command: OnOffCommand,
)
    ensures
        cluster != 0x0006 ==> plane_rules::invoked(p, endpoint, cluster, command) == (
            p,
            Err::<(), ErrorCode>(ErrorCode::CommandNotFound),
        ),
        cluster == 0x0006 && served_by_none(p.slots, endpoint) ==> plane_rules::invoked(
            p,
            endpoint,
            cluster,
            command,
        ) == (p, Err::<(), ErrorCode>(ErrorCode::EndpointNotFound)),
        command == OnOffCommand::Lighting && !served_by_none(p.slots, endpoint)
            ==> plane_rules::invoked(p, endpoint, cluster, command) == (
            p,
            Err::<(), ErrorCode>(ErrorCode::CommandNotFound),
        ),
{
    let f = |s: SlotView| s.matter_endpoint == endpoint;
    slot::lemma_first_index_meaning(p.slots, f);
    if served_by_none(p.slots, endpoint) {
        lemma_served_by_none(p.slots, endpoint);
    } else {
        let j = choose|j: int|
            0 <= j < p.slots.len() && (#[trigger] p.slots[j]).matter_endpoint == endpoint;
        assert(f(p.slots[j]));
    }
}

/// A controller's write acts at the endpoint that it names, and nowhere where no slot serves
/// that endpoint.
pub proof fn law_write_acts_at_its_endpoint(p: PlaneView, endpoint: u16, on: bool, k: int)
    ensures
        serves_at(p.slots, endpoint, k) ==> plane_rules::switched(p, endpoint, on).1 && switched_at(
            p,
            plane_rules::switched(p, endpoint, on).0,
            k,
            on,
        ),
        served_by_none(p.slots, endpoint) ==> plane_rules::switched(p, endpoint, on) == (p, false),
{
    if serves_at(p.slots, endpoint, k) {
        lemma_serves_at(p.slots, endpoint, k);
    }
    if served_by_none(p.slots, endpoint) {
        lemma_served_by_none(p.slots, endpoint);
    }
}

/// A read at a bridged endpoint answers for the slot that serves it: the On/Off cluster with
/// its value, Bridged Device Basic Information with its unique id and label, the Descriptor,
/// each with its own data version; and no other cluster.
pub proof fn law_read_answers_for_its_endpoint(
    p: PlaneView,
    endpoint: u16,
    cluster: u32,
    r: Result<ReadTarget, ErrorCode>,
    k: int,
)
    requires
        serves_at(p.slots, endpoint, k),
        endpoint != 1,
        plane_rules::is_read_of(p, endpoint, cluster, r),
    ensures
        cluster == 0x0006 ==> r == Ok::<ReadTarget, ErrorCode>(
            ReadTarget::OnOff { dataver: p.slots[k].functional_dataver, on: p.slots[k].on },
        ),
        cluster == 0x0039 ==> {
            &&& r is Ok
            &&& r->Ok_0 is BridgedInfo
            &&& r->Ok_0->BridgedInfo_dataver == p.slots[k].bridged_info_dataver
            &&& r->Ok_0->unique_id@ == p.slots[k].unique_id
            &&& r->Ok_0->node_label@ == slot::node_label_of(p.slots[k].export.name)
        },
        cluster == 0x001d ==> r == Ok::<ReadTarget, ErrorCode>(
            ReadTarget::Descriptor { dataver: p.slots[k].desc_dataver },
        ),
        cluster != 0x0006 && cluster != 0x0039 && cluster != 0x001d ==> r == Err::<
            ReadTarget,
            ErrorCode,
        >(ErrorCode::ClusterNotFound),
{
    lemma_serves_at(p.slots, endpoint, k);
}

/// A read elsewhere: endpoint 1 is the aggregator, which has the Descriptor alone, and an
/// endpoint that no slot serves is not found.
pub proof fn law_read_elsewhere(
    p: PlaneView,
    endpoint: u16,
    cluster: u32,
    r: Result<ReadTarget, ErrorCode>,
)
    requires
        plane_rules::is_read_of(p, endpoint, cluster, r),
    ensures
        endpoint == 1 && cluster == 0x001d ==> r == Ok::<ReadTarget, ErrorCode>(
            ReadTarget::AggregatorDescriptor { dataver: p.aggregator_dataver },
        ),
        endpoint == 1 && cluster != 0x001d ==> r == Err::<ReadTarget, ErrorCode>(
            ErrorCode::ClusterNotFound,
        ),
        endpoint != 1 && served_by_none(p.slots, endpoint) ==> r == Err::<ReadTarget, ErrorCode>(
            ErrorCode::EndpointNotFound,
        ),
{
    if served_by_none(p.slots, endpoint) {
        lemma_served_by_none(p.slots, endpoint);
    }
}

/// A read after a command at the same endpoint gives the commanded value; at any other
/// bridged endpoint it gives what it gave before.
pub proof fn law_read_sees_the_command(
    p: PlaneView,
    endpoint: u16,
    k: int,
    other: u16,
    cluster: u32,
    r: Result<ReadTarget, ErrorCode>,
)
    requires
        serves_at(p.slots, endpoint, k),
        endpoint != 1,
        plane_rules::is_read_of(
            plane_rules::invoked(p, endpoint, 0x0006, OnOffCommand::On).0,
            other,
            cluster,
            r,
        ),
    ensures
        other == endpoint && cluster == 0x0006 ==> r is Ok && r->Ok_0 is OnOff && r->Ok_0->on,
        other != endpoint ==> plane_rules::is_read_of(p, other, cluster, r),
{
    law_command_acts_at_its_endpoint(p, endpoint, k);
    let after = plane_rules::invoked(p, endpoint, 0x0006, OnOffCommand::On).0;
    let f = |s: SlotView| s.matter_endpoint == other;
    slot::lemma_first_index_meaning(p.slots, f);
    let j = slot::index_at(p.slots, other);
    assert forall|i: int| 0 <= i < j implies !f(#[trigger] after.slots[i]) by {
        assert(!f(p.slots[i]));
    }
    slot::lemma_first_index(after.slots, f, j);
    if other == endpoint {
        lemma_serves_at(p.slots, endpoint, k);
    }
}

/// Whether slot `k` is the first of an export.
pub open spec fn first_slot_of(slots: Seq<SlotView>, export_id: u128, k: int) -> bool {
    &&& 0 <= k < slots.len()
    &&& slots[k].export_id == export_id
    &&& forall|j: int| 0 <= j < k ==> (#[trigger] slots[j]).export_id != export_id
}

/// Whether no slot is of an export.
pub open spec fn no_slot_of(slots: Seq<SlotView>, export_id: u128) -> bool {
    forall|j: int| 0 <= j < slots.len() ==> (#[trigger] slots[j]).export_id != export_id
}

/// Entity states act on the slot of the export that they are pushed for. A state of the
/// primary entity that says on or off is what the slot shows afterwards; where that is
/// something new, the slot owes a report, the data version of its On/Off cluster has moved
/// by one and the stack is woken. Every state counts as applied, and nothing else changes.
pub proof fn law_pushed_state_is_shown(
    p: PlaneView,
    export_id: u128,
    states: Seq<HaStateValue>,
    k: int,
    i: int,
)
    requires
        first_slot_of(p.slots, export_id, k),
        p.slots[k].export.type_ == DeviceType::Light || p.slots[k].export.type_
            == DeviceType::OnOffSwitch || p.slots[k].export.type_ == DeviceType::OnOffPlug
            || p.slots[k].export.type_ == DeviceType::Outlet,
        0 <= i < states.len(),
        states.len() <= u32::MAX,
        states[i].entity_id@ == p.slots[k].export.primary_entity_id,
        on_off_map::state_on(states[i].state@) is Some,
        forall|j: int|
            0 <= j < i && (#[trigger] states[j]).entity_id@ == p.slots[k].export.primary_entity_id
                ==> on_off_map::state_on(states[j].state@) is None,
    ensures
        ({
            let on = on_off_map::state_on(states[i].state@)->0;
            let (after, count) = plane_rules::applied_state(p, export_id, states);
            let was = p.slots[k];
            let now = after.slots[k];
            &&& count == states.len()
            &&& now.on == on
            &&& was.on == on ==> after == p
            &&& was.on != on ==> {
                &&& now.report_on_off
                &&& now.functional_dataver == (was.functional_dataver + 1) % 0x1_0000_0000
                &&& after.wake
            }
            &&& now.export_id == was.export_id
            &&& now.matter_endpoint == was.matter_endpoint
            &&& now.export == was.export
            &&& now.unique_id == was.unique_id
            &&& now.desc_dataver == was.desc_dataver
            &&& now.bridged_info_dataver == was.bridged_info_dataver
            &&& now.report_node_label == was.report_node_label
            &&& after.slots.len() == p.slots.len()
            &&& forall|j: int|
                0 <= j < p.slots.len() && j != k ==> #[trigger] after.slots[j] == p.slots[j]
            &&& after.commands == p.commands
            &&& after.known == p.known
            &&& after.config_dirty == p.config_dirty
            &&& after.aggregator_dataver == p.aggregator_dataver
        }),
{
    slot::lemma_first_index(p.slots, |s: SlotView| s.export_id == export_id, k);
    super::on_off_laws::law_primary_entity_decides(
        p.slots[k].export.type_,
        p.slots[k].export.primary_entity_id,
        states,
        i,
    );
}

/// States that say neither on nor off change nothing and count as applied. So do states for
/// an export that is known and has no slot; for an unknown one none counts.
pub proof fn law_pushed_state_without_effect(
    p: PlaneView,
    export_id: u128,
    states: Seq<HaStateValue>,
)
    requires
        states.len() <= u32::MAX,
    ensures
        ({
            let (after, count) = plane_rules::applied_state(p, export_id, states);
            &&& no_slot_of(p.slots, export_id) ==> after == p
            &&& no_slot_of(p.slots, export_id) && p.known.contains(export_id) ==> count
                == states.len()
            &&& no_slot_of(p.slots, export_id) && !p.known.contains(export_id) ==> count == 0
            &&& !no_slot_of(p.slots, export_id) ==> count == states.len()
            &&& (forall|j: int|
                0 <= j < states.len() ==> on_off_map::state_on(
                    (#[trigger] states[j]).state@,
                ) is None) ==> after == p
        }),
{
    let f = |s: SlotView| s.export_id == export_id;
    slot::lemma_first_index_meaning(p.slots, f);
    let k = slot::index_for(p.slots, export_id);
    if !no_slot_of(p.slots, export_id) {
        let j = choose|j: int|
            0 <= j < p.slots.len() && (#[trigger] p.slots[j]).export_id == export_id;
        assert(f(p.slots[j]));
    }
    if forall|j: int|
        0 <= j < states.len() ==> on_off_map::state_on((#[trigger] states[j]).state@) is None {
        super::on_off_laws::law_nothing_decides(
            p.slots[k].export.type_,
            p.slots[k].export.primary_entity_id,
            states,
        );
    }
}

/// The reports of two runs of slots, one behind the other, are those of the first, then
/// those of the second. A slot reports its `OnOff` attribute and its `NodeLabel` attribute,
/// each where it owes it.
pub proof fn law_reports(a: Seq<SlotView>, b: Seq<SlotView>, s: SlotView)
    ensures
        plane_rules::all_reports(a + b) == plane_rules::all_reports(a) + plane_rules::all_reports(
            b,
        ),
        ({
            let r = plane_rules::all_reports(seq![s]);
            let value = (s.matter_endpoint, 0x0006u32, 0u32);
            let label = (s.matter_endpoint, 0x0039u32, 5u32);
            &&& !s.report_on_off && !s.report_node_label ==> r == Seq::<(u16, u32, u32)>::empty()
            &&& s.report_on_off && !s.report_node_label ==> r == seq![value]
            &&& !s.report_on_off && s.report_node_label ==> r == seq![label]
            &&& s.report_on_off && s.report_node_label ==> r == seq![value, label]
        }),
    decreases b.len(),
{
    assert(seq![s].drop_last() =~= Seq::<SlotView>::empty());
    assert(plane_rules::all_reports(seq![s].drop_last()) =~= Seq::empty());
    assert(seq![s].last() == s);
    if b.len() == 0 {
        assert(a + b =~= a);
        assert(plane_rules::all_reports(b) =~= Seq::empty());
        assert(plane_rules::all_reports(a) + Seq::empty() =~= plane_rules::all_reports(a));
    } else {
        assert((a + b).drop_last() =~= a + b.drop_last());
        law_reports(a, b.drop_last(), s);
        assert((plane_rules::all_reports(a) + plane_rules::all_reports(b.drop_last()))
            + plane_rules::own_reports(b.last()) =~= plane_rules::all_reports(a) + (
        plane_rules::all_reports(b.drop_last()) + plane_rules::own_reports(b.last())));
    }
}

/// A slot whose reports were taken owes none, and has not changed otherwise.
pub proof fn law_reported(s: SlotView)
    ensures
        ({
            let r = plane_rules::reported(s);
            &&& !r.report_on_off && !r.report_node_label
            &&& r.export_id == s.export_id
            &&& r.matter_endpoint == s.matter_endpoint
            &&& r.on == s.on
            &&& r.export == s.export
            &&& r.unique_id == s.unique_id
            &&& r.desc_dataver == s.desc_dataver
            &&& r.bridged_info_dataver == s.bridged_info_dataver
            &&& r.functional_dataver == s.functional_dataver
        }),
{
}

/// A data version goes up by one, from the greatest 32-bit number back to 0.
pub proof fn law_next_version(n: u32)
    ensures
        slot::next_version(n) == (n + 1) % 0x1_0000_0000,
{
}

/// A notification for an endpoint and a cluster, or for all of either, moves by one the data
/// version of each cluster of a slot that it covers, and nothing else.
pub proof fn law_notification(s: SlotView, endpoint: Option<u16>, cluster: Option<u32>)
    ensures
        ({
            let r = plane_rules::bumped(s, endpoint, cluster);
            let here = endpoint is None || endpoint->0 == s.matter_endpoint;
            &&& r.desc_dataver == (if here && (cluster is None || cluster->0 == 0x001d) {
                (s.desc_dataver + 1) % 0x1_0000_0000
            } else {
                s.desc_dataver as int
            })
            &&& r.bridged_info_dataver == (if here && (cluster is None || cluster->0 == 0x0039) {
                (s.bridged_info_dataver + 1) % 0x1_0000_0000
            } else {
                s.bridged_info_dataver as int
            })
            &&& r.functional_dataver == (if here && (cluster is None || cluster->0 == 0x0006) {
                (s.functional_dataver + 1) % 0x1_0000_0000
            } else {
                s.functional_dataver as int
            })
            &&& r.export_id == s.export_id
            &&& r.matter_endpoint == s.matter_endpoint
            &&& r.on == s.on
            &&& r.export == s.export
            &&& r.unique_id == s.unique_id
            &&& r.report_on_off == s.report_on_off
            &&& r.report_node_label == s.report_node_label
        }),
{
}

/// A notification covers an endpoint or a cluster that it names, and all where it names
/// none; what it covers moves by one.
pub proof fn law_coverage(endpoint: Option<u16>, cluster: Option<u32>, e: u16, c: u32, n: u32)
    ensures
        plane_rules::covers_endpoint(None, e),
        plane_rules::covers_cluster(None, c),
        endpoint is Some ==> (plane_rules::covers_endpoint(endpoint, e) <==> endpoint->0 == e),
        cluster is Some ==> (plane_rules::covers_cluster(cluster, c) <==> cluster->0 == c),
        plane_rules::bumped_if(n, true) == (n + 1) % 0x1_0000_0000,
        plane_rules::bumped_if(n, false) == n,
{
}

/// The endpoint of an export is one past its catalog endpoint id; ids 0 and 65535 give none,
/// and neither does an export that is disabled or without on/off control.
pub proof fn law_wanted_endpoint(e: ExportView)
    ensures
        slot::slot_endpoint(e) is Some <==> {
            &&& e.enabled
            &&& e.type_ == DeviceType::Light || e.type_ == DeviceType::OnOffSwitch || e.type_
                == DeviceType::OnOffPlug || e.type_ == DeviceType::Outlet
            &&& e.endpoint_id is Some
            &&& 1 <= e.endpoint_id->0
            &&& e.endpoint_id->0 <= 65534
        },
        slot::slot_endpoint(e) is Some ==> slot::slot_endpoint(e)->0 == e.endpoint_id->0 + 1,
{
}

/// Of the exports that want the same endpoint, the slot there has one with the least
/// identity.
pub proof fn law_least_identity_is_served(
    exports: Seq<ExportView>,
    previous: Seq<SlotView>,
    slots: Seq<SlotView>,
    k: int,
    j: int,
)
    requires
        slot::is_slot_table(exports, previous, slots),
        0 <= k < slots.len(),
        0 <= j < exports.len(),
        slot::slot_endpoint(exports[j]) == Some(slots[k].matter_endpoint),
    ensures
        slots[k].export.export_id <= exports[j].export_id,
        exports.contains(slots[k].export),
        slot::slot_endpoint(slots[k].export) == Some(slots[k].matter_endpoint),
{
    assert(slot::comes_from(exports, previous, slots[k]));
    let i = choose|i: int|
        {
            &&& #[trigger] slot::wins(exports, i)
            &&& slot::slot_endpoint(exports[i]) == Some(slots[k].matter_endpoint)
            &&& slot::is_rebuilt(
                exports[i],
                slots[k].matter_endpoint,
                slot::slot_of(previous, exports[i].export_id),
                slots[k],
            )
        };
    assert(slots[k].export == exports[i]);
    assert(exports[i] == exports[i] && exports[j] == exports[j]);
}

/// A slot serves its export: it has its identity, the identity without hyphens as unique id,
/// and the endpoint it was given.
pub proof fn law_rebuilt_slot_serves_its_export(
    e: ExportView,
    endpoint: u16,
    previous: Option<SlotView>,
    fresh: (u32, u32, u32),
)
    ensures
        ({
            let s = slot::rebuilt(e, endpoint, previous, fresh);
            &&& s.export == e
            &&& s.export_id == e.export_id
            &&& s.unique_id == ids::simple_text(e.export_id)
            &&& s.matter_endpoint == endpoint
        }),
{
}

/// A new slot is off, owes nothing, and has the fresh data versions in the order of
/// Descriptor, Bridged Device Basic Information, On/Off.
pub proof fn law_new_slot(e: ExportView, endpoint: u16, fresh: (u32, u32, u32))
    ensures
        ({
            let s = slot::rebuilt(e, endpoint, None, fresh);
            &&& !s.on
            &&& !s.report_on_off
            &&& !s.report_node_label
            &&& s.desc_dataver == fresh.0
            &&& s.bridged_info_dataver == fresh.1
            &&& s.functional_dataver == fresh.2
        }),
{
}

/// A slot that is rebuilt keeps its value, the data version of its On/Off cluster and what
/// it owes. A new label moves the data version of Bridged Device Basic Information by one
/// and owes a report; a new endpoint, identity or kind of device moves the Descriptor's.
pub proof fn law_kept_slot(
    e: ExportView,
    endpoint: u16,
    was: SlotView,
    fresh: (u32, u32, u32),
)
    ensures
        ({
            let s = slot::rebuilt(e, endpoint, Some(was), fresh);
            let relabeled = slot::node_label_of(was.export.name) != slot::node_label_of(e.name);
            let moved = was.matter_endpoint != endpoint || was.export_id != e.export_id || (
            was.export.type_ == DeviceType::Light) != (e.type_ == DeviceType::Light);
            &&& s.on == was.on
            &&& s.functional_dataver == was.functional_dataver
            &&& s.report_on_off == was.report_on_off
            &&& s.report_node_label == (was.report_node_label || relabeled)
            &&& relabeled ==> s.bridged_info_dataver == (was.bridged_info_dataver + 1)
                % 0x1_0000_0000
            &&& !relabeled ==> s.bridged_info_dataver == was.bridged_info_dataver
            &&& moved ==> s.desc_dataver == (was.desc_dataver + 1) % 0x1_0000_0000
            &&& !moved ==> s.desc_dataver == was.desc_dataver
        }),
{
}

/// The slot of an export after a rebuild of the table is rebuilt from the first slot that
/// the export had before, and is new where it had none.
pub proof fn law_slot_follows_its_export(
    exports: Seq<ExportView>,
    previous: Seq<SlotView>,
    slots: Seq<SlotView>,
    k: int,
    was: int,
)
    requires
        slot::is_slot_table(exports, previous, slots),
        0 <= k < slots.len(),
    ensures
        first_slot_of(previous, slots[k].export_id, was) ==> exists|fresh: (u32, u32, u32)|
            slots[k] == #[trigger] slot::rebuilt(
                slots[k].export,
                slots[k].matter_endpoint,
                Some(previous[was]),
                fresh,
            ),
        no_slot_of(previous, slots[k].export_id) ==> exists|fresh: (u32, u32, u32)|
            slots[k] == #[trigger] slot::rebuilt(
                slots[k].export,
                slots[k].matter_endpoint,
                None,
                fresh,
            ),
{
    assert(slot::comes_from(exports, previous, slots[k]));
    let i = choose|i: int|
        {
            &&& #[trigger] slot::wins(exports, i)
            &&& slot::slot_endpoint(exports[i]) == Some(slots[k].matter_endpoint)
            &&& slot::is_rebuilt(
                exports[i],
                slots[k].matter_endpoint,
                slot::slot_of(previous, exports[i].export_id),
                slots[k],
            )
        };
    assert(slots[k].export == exports[i]);
    let id = slots[k].export_id;
    if first_slot_of(previous, id, was) {
        slot::lemma_first_index(previous, |s: SlotView| s.export_id == id, was);
    }
    if no_slot_of(previous, id) {
        slot::lemma_first_index(
            previous,
            |s: SlotView| s.export_id == id,
            previous.len() as int,
        );
    }
}

/// Whether a slot looks to controllers as another does: the same endpoint and identity, and both
/// a light or neither.
pub open spec fn alike(a: SlotView, b: SlotView) -> bool {
    &&& a.matter_endpoint == b.matter_endpoint
    &&& a.export_id == b.export_id
    &&& (a.export.type_ == DeviceType::Light) == (b.export.type_ == DeviceType::Light)
}

/// Whether two slot tables look the same to controllers, slot by slot.
pub open spec fn same_shape(a: Seq<SlotView>, b: Seq<SlotView>) -> bool {
    &&& a.len() == b.len()
    &&& forall|k: int| 0 <= k < b.len() ==> alike(a[k], #[trigger] b[k])
}

#[verifier::spinoff_prover]
proof fn lemma_same_shape(a: Seq<SlotView>, b: Seq<SlotView>)
    ensures
        slot::surfaces(a) == slot::surfaces(b) <==> same_shape(a, b),
{
    let x = slot::surfaces(a);
    let y = slot::surfaces(b);
    if x == y {
        assert(a.len() == x.len() && b.len() == y.len());
        assert forall|k: int| 0 <= k < b.len() implies alike(a[k], #[trigger] b[k]) by {
            assert(x[k] == y[k]);
        }
    }
    if same_shape(a, b) {
        assert forall|k: int| 0 <= k < x.len() implies x[k] == y[k] by {
            assert(alike(a[k], b[k]));
        }
        assert(x =~= y);
    }
}

/// A rebuild knows exactly the exports it was given, keeps the queued commands, and tells the
/// stack of a new shape: where a slot came, went or changed its endpoint, identity or kind of
/// device, the aggregator's data version moves by one, a configuration bump is owed and the
/// stack is woken. Without that, an owed report still wakes it.
#[verifier::spinoff_prover]
pub proof fn law_rebuild_tells_the_stack(
    before: PlaneView,
    exports: Seq<ExportView>,
    after: PlaneView,
)
    requires
        plane_rules::is_rebuilt_plane(before, exports, after),
    ensures
        forall|id: u128| #[trigger]
            after.known.contains(id) <==> exists|i: int|
                0 <= i < exports.len() && (#[trigger] exports[i]).export_id == id,
        after.commands == before.commands,
        after.config_dirty == (before.config_dirty || !same_shape(before.slots, after.slots)),
        same_shape(before.slots, after.slots) ==> after.aggregator_dataver
            == before.aggregator_dataver,
        !same_shape(before.slots, after.slots) ==> after.aggregator_dataver == (
        before.aggregator_dataver + 1) % 0x1_0000_0000,
        after.wake == (before.wake || !same_shape(before.slots, after.slots) || exists|k: int|
            0 <= k < after.slots.len() && ((#[trigger] after.slots[k]).report_on_off
                || after.slots[k].report_node_label)),
{
    lemma_same_shape(before.slots, after.slots);
}

/// The label of a node is as much of the name as fits into 32 bytes of UTF-8: a beginning of
/// it, and with one more character too long, unless it is the whole name.
pub proof fn law_node_label(name: Seq<char>)
    ensures
        ({
            let label = slot::node_label_of(name);
            &&& label.len() <= name.len()
            &&& label == name.take(label.len() as int)
            &&& vstd::utf8::encode_utf8(label).len() <= 32
            &&& label.len() < name.len() ==> vstd::utf8::encode_utf8(
                name.take(label.len() as int + 1),
            ).len() > 32
        }),
{
    node_label::law_clamped(name, 32);
}

/// The endpoints of the exposed node: the root is 0 and has nothing of its own, the
/// aggregator is 1 and has the Descriptor, and a slot is a light or a plug-in unit, and a
/// bridged node, with Descriptor, Bridged Device Basic Information and On/Off.
pub proof fn law_endpoint_shapes(e: EndpointShape, s: SlotView)
    ensures
        e.is_root() ==> e.id == 0 && e.device_types@.len() == 0 && e.clusters@.len() == 0,
        e.is_aggregator() ==> {
            &&& e.id == 1
            &&& e.device_types@ == seq![MatterDeviceType { dtype: 0x000e, drev: 1 }]
            &&& e.clusters@ == seq![0x001du32]
        },
        e.is_of(s) ==> {
            &&& e.id == s.matter_endpoint
            &&& e.device_types@.len() == 2
            &&& e.device_types@[0] == (if s.export.type_ == DeviceType::Light {
                MatterDeviceType { dtype: 0x0100, drev: 3 }
            } else {
                MatterDeviceType { dtype: 0x010a, drev: 3 }
            })
            &&& e.device_types@[1] == (MatterDeviceType { dtype: 0x0013, drev: 1 })
            &&& e.clusters@ == seq![0x001du32, 0x0039u32, 0x0006u32]
        },
{
}

} // verus!
