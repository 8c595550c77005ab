//! What holds of the export plane as a whole.
use super::layout::{AGGREGATOR_ENDPOINT_ID, ON_OFF_CLUSTER_ID};
use super::plane_rules::{OnOffCommand, PlaneView};
use super::slot::SlotView;
use super::{on_off_map, plane_rules, slot};
use crate::catalog::model::ExportView;
use crate::catalog::HaStateValue;
use vstd::prelude::*;

verus! {

/// Only enabled on/off exports are bridged, each at its catalog endpoint id plus one, past
/// the aggregator, and no two at the same endpoint.
pub proof fn law_bridged_slots(
    exports: Seq<ExportView>,
    previous: Seq<SlotView>,
    slots: Seq<SlotView>,
)
    requires
        slot::is_slot_table(exports, previous, slots),
    ensures
        forall|k: int|
            0 <= k < slots.len() ==> {
                &&& (#[trigger] slots[k]).matter_endpoint > AGGREGATOR_ENDPOINT_ID
                &&& slots[k].export.enabled
                &&& slots[k].export.type_.on_off_capable()
                &&& slots[k].export.endpoint_id == Some((slots[k].matter_endpoint - 1) as u16)
                &&& exports.contains(slots[k].export)
            },
        forall|a: int, b: int|
            0 <= a < b < slots.len() ==> (#[trigger] slots[a]).matter_endpoint < (
            #[trigger] slots[b]).matter_endpoint,
{
    assert forall|k: int| 0 <= k < slots.len() implies {
        &&& (#[trigger] slots[k]).matter_endpoint > AGGREGATOR_ENDPOINT_ID
        &&& slots[k].export.enabled
        &&& slots[k].export.type_.on_off_capable()
        &&& slots[k].export.endpoint_id == Some((slots[k].matter_endpoint - 1) as u16)
        &&& exports.contains(slots[k].export)
    } by {
        assert(slot::comes_from(exports, previous, slots[k]));
        let i = choose|i: int|
            {
                &&& #[trigger] slot::wins(exports, i)
                &&& slot::slot_endpoint(exports[i]) == Some(slots[k].matter_endpoint)
                &&& slot::is_rebuilt(
                    exports[i],
                    slots[k].matter_endpoint,
                    slot::slot_of(previous, exports[i].export_id),
                    slots[k],
                )
            };
        assert(slots[k].export == exports[i]);
    }
}

/// Where no two exports share an endpoint id, every enabled on/off export whose id is
/// neither 0 nor the last is bridged, at its own endpoint.
pub proof fn law_every_export_is_bridged(
    exports: Seq<ExportView>,
    previous: Seq<SlotView>,
    slots: Seq<SlotView>,
    i: int,
)
    requires
        slot::is_slot_table(exports, previous, slots),
        forall|a: int, b: int|
            0 <= a < b < exports.len() && (#[trigger] exports[a]).endpoint_id is Some
                ==> exports[a].endpoint_id != (#[trigger] exports[b]).endpoint_id,
        0 <= i < exports.len(),
        on_off_map::bridged(exports[i].enabled, exports[i].type_),
        exports[i].endpoint_id is Some,
        1 <= exports[i].endpoint_id->0 < u16::MAX,
    ensures
        exists|k: int|
            0 <= k < slots.len() && (#[trigger] slots[k]).matter_endpoint
                == exports[i].endpoint_id->0 + 1 && slots[k].export == exports[i],
{
    assert forall|j: int|
        0 <= j < exports.len() && j != i && slot::slot_endpoint(#[trigger] exports[j])
            == slot::slot_endpoint(exports[i]) implies false by {
        assert(exports[j].endpoint_id == exports[i].endpoint_id);
        if j < i {
            assert(exports[j].endpoint_id != exports[i].endpoint_id);
        } else {
            assert(exports[i].endpoint_id != exports[j].endpoint_id);
        }
    }
    assert(slot::wins(exports, i));
    let endpoint = slot::slot_endpoint(exports[i])->0;
    assert(slot::serves(slots, endpoint));
    let k = choose|k: int|
        0 <= k < slots.len() && (#[trigger] slots[k]).matter_endpoint == endpoint;
    assert(slot::comes_from(exports, previous, slots[k]));
    let j = source(exports, previous, slots[k]);
    assert(slot::wins(exports, j));
    assert(j == i);
}

/// A rebuild carries state over by export: the on/off value, the On/Off data version and
/// owed reports stay, and the other data versions stay or move on by one.
pub proof fn law_rebuild_keeps_state(
    exports: Seq<ExportView>,
    previous: Seq<SlotView>,
    slots: Seq<SlotView>,
    k: int,
)
    requires
        slot::is_slot_table(exports, previous, slots),
        0 <= k < slots.len(),
        slot::slot_of(previous, slots[k].export_id) is Some,
    ensures
        ({
            let p = slot::slot_of(previous, slots[k].export_id)->0;
            &&& slots[k].on == p.on
            &&& slots[k].functional_dataver == p.functional_dataver
            &&& slots[k].report_on_off == p.report_on_off
            &&& p.report_node_label ==> slots[k].report_node_label
            &&& slots[k].desc_dataver == p.desc_dataver || slots[k].desc_dataver
                == slot::next_version(p.desc_dataver)
            &&& slots[k].bridged_info_dataver == p.bridged_info_dataver
                || slots[k].bridged_info_dataver == slot::next_version(p.bridged_info_dataver)
        }),
{
    assert(slot::comes_from(exports, previous, slots[k]));
}

/// An export without a slot so far starts off and owes nothing.
pub proof fn law_new_slot_is_off(
    exports: Seq<ExportView>,
    previous: Seq<SlotView>,
    slots: Seq<SlotView>,
    k: int,
)
    requires
        slot::is_slot_table(exports, previous, slots),
        0 <= k < slots.len(),
        slot::slot_of(previous, slots[k].export_id) is None,
    ensures
        !slots[k].on,
        !slots[k].owes_report(),
{
    assert(slot::comes_from(exports, previous, slots[k]));
}

/// A data version never stays in place when it moves.
pub proof fn law_next_version_differs(n: u32)
    ensures
        slot::next_version(n) != n,
{
}

/// Whether two export lists look the same to controllers, name and primary entity aside.
pub open spec fn same_shape(a: Seq<ExportView>, b: Seq<ExportView>) -> bool {
    &&& a.len() == b.len()
    &&& forall|i: int|
        0 <= i < a.len() ==> {
            &&& (#[trigger] a[i]).export_id == b[i].export_id
            &&& slot::slot_endpoint(a[i]) == slot::slot_endpoint(b[i])
            &&& slot::device_type_of(a[i].type_) == slot::device_type_of(b[i].type_)
        }
}

/// Two increasing sequences of endpoints with the same elements are equal.
proof fn lemma_same_endpoints(a: Seq<u16>, b: Seq<u16>)
    requires
        forall|i: int, j: int| 0 <= i < j < a.len() ==> a[i] < a[j],
        forall|i: int, j: int| 0 <= i < j < b.len() ==> b[i] < b[j],
        forall|x: u16| #[trigger] a.contains(x) <==> b.contains(x),
    ensures
        a == b,
    decreases a.len(),
{
    if a.len() == 0 {
        if b.len() > 0 {
            assert(b.contains(b[0]));
            assert(a.contains(b[0]));
        }
        assert(a =~= b);
    } else {
        assert(a.contains(a[0]));
        assert(b.contains(a[0]));
        assert(a.contains(a.last()));
        assert(b.contains(b.last()));
        let i = choose|i: int| 0 <= i < b.len() && b[i] == a.last();
        assert(a.contains(b.last()));
        let j = choose|j: int| 0 <= j < a.len() && a[j] == b.last();
        assert(a.last() == b.last()) by {
            if i < b.len() - 1 {
                assert(b[i] < b[b.len() - 1]);
            }
            if j < a.len() - 1 {
                assert(a[j] < a[a.len() - 1]);
            }
        }
        let x = a.drop_last();
        let y = b.drop_last();
        assert forall|e: u16| #[trigger] x.contains(e) <==> y.contains(e) by {
            if x.contains(e) {
                let k = choose|k: int| 0 <= k < x.len() && x[k] == e;
                assert(a[k] == e);
                assert(a[k] < a[a.len() - 1]);
                assert(a.contains(e));
                assert(b.contains(e));
                let m = choose|m: int| 0 <= m < b.len() && b[m] == e;
                assert(y[m] == e);
            }
            if y.contains(e) {
                let k = choose|k: int| 0 <= k < y.len() && y[k] == e;
                assert(b[k] == e);
                assert(b[k] < b[b.len() - 1]);
                assert(b.contains(e));
                assert(a.contains(e));
                let m = choose|m: int| 0 <= m < a.len() && a[m] == e;
                assert(x[m] == e);
            }
        }
        lemma_same_endpoints(x, y);
        assert(a =~= x.push(a.last()));
        assert(b =~= y.push(b.last()));
    }
}

/// The export behind a slot.
spec fn source(exports: Seq<ExportView>, previous: Seq<SlotView>, s: SlotView) -> int {
    choose|i: int|
        {
            &&& #[trigger] slot::wins(exports, i)
            &&& slot::slot_endpoint(exports[i]) == Some(s.matter_endpoint)
            &&& slot::is_rebuilt(
                exports[i],
                s.matter_endpoint,
                slot::slot_of(previous, exports[i].export_id),
                s,
            )
        }
}

/// An endpoint served by one of two tables for lists of the same shape is served by the
/// other.
proof fn lemma_serves_both(
    a: Seq<ExportView>,
    before_a: Seq<SlotView>,
    table_a: Seq<SlotView>,
    b: Seq<ExportView>,
    before_b: Seq<SlotView>,
    table_b: Seq<SlotView>,
    k: int,
)
    requires
        same_shape(a, b),
        slot::is_slot_table(a, before_a, table_a),
        slot::is_slot_table(b, before_b, table_b),
        0 <= k < table_a.len(),
    ensures
        slot::serves(table_b, table_a[k].matter_endpoint),
        slot::wins(b, source(a, before_a, table_a[k])),
        slot::wins(a, source(a, before_a, table_a[k])),
{
    assert(slot::comes_from(a, before_a, table_a[k]));
    let i = source(a, before_a, table_a[k]);
    assert(slot::wins(a, i));
    assert(slot::wins(b, i)) by {
        assert(a[i].export_id == b[i].export_id);
        assert forall|j: int|
            0 <= j < b.len() && j != i && slot::slot_endpoint(#[trigger] b[j])
                == slot::slot_endpoint(b[i]) implies b[i].export_id < b[j].export_id || (
        b[i].export_id == b[j].export_id && i < j) by {
            assert(a[j].export_id == b[j].export_id);
            assert(slot::slot_endpoint(a[j]) == slot::slot_endpoint(a[i]));
        }
    }
    assert(a[i].export_id == b[i].export_id);
    assert(slot::serves(table_b, slot::slot_endpoint(b[i])->0));
}

/// Lists of the same shape have the same surfaces, whatever came before.
proof fn lemma_same_surfaces(
    a: Seq<ExportView>,
    before_a: Seq<SlotView>,
    table_a: Seq<SlotView>,
    b: Seq<ExportView>,
    before_b: Seq<SlotView>,
    table_b: Seq<SlotView>,
)
    requires
        same_shape(a, b),
        slot::is_slot_table(a, before_a, table_a),
        slot::is_slot_table(b, before_b, table_b),
    ensures
        slot::surfaces(table_a) == slot::surfaces(table_b),
{
    assert(same_shape(b, a)) by {
        assert forall|i: int| 0 <= i < b.len() implies {
            &&& (#[trigger] b[i]).export_id == a[i].export_id
            &&& slot::slot_endpoint(b[i]) == slot::slot_endpoint(a[i])
            &&& slot::device_type_of(b[i].type_) == slot::device_type_of(a[i].type_)
        } by {
            assert(a[i].export_id == b[i].export_id);
        }
    }
    let x = table_a.map_values(|s: SlotView| s.matter_endpoint);
    let y = table_b.map_values(|s: SlotView| s.matter_endpoint);
    assert forall|e: u16| #[trigger] x.contains(e) <==> y.contains(e) by {
        if x.contains(e) {
            let k = choose|k: int| 0 <= k < x.len() && x[k] == e;
            lemma_serves_both(a, before_a, table_a, b, before_b, table_b, k);
            let m = choose|m: int|
                0 <= m < table_b.len() && (#[trigger] table_b[m]).matter_endpoint == e;
            assert(y[m] == e);
        }
        if y.contains(e) {
            let k = choose|k: int| 0 <= k < y.len() && y[k] == e;
            lemma_serves_both(b, before_b, table_b, a, before_a, table_a, k);
            let m = choose|m: int|
                0 <= m < table_a.len() && (#[trigger] table_a[m]).matter_endpoint == e;
            assert(x[m] == e);
        }
    }
    assert forall|i: int, j: int| 0 <= i < j < x.len() implies x[i] < x[j] by {
        assert(table_a[i].matter_endpoint < table_a[j].matter_endpoint);
    }
    assert forall|i: int, j: int| 0 <= i < j < y.len() implies y[i] < y[j] by {
        assert(table_b[i].matter_endpoint < table_b[j].matter_endpoint);
    }
    lemma_same_endpoints(x, y);
    let sa = slot::surfaces(table_a);
    let sb = slot::surfaces(table_b);
    assert(sa.len() == sb.len()) by {
        assert(x.len() == y.len());
    }
    assert forall|k: int| 0 <= k < sa.len() implies sa[k] == sb[k] by {
        assert(x[k] == y[k]);
        lemma_serves_both(a, before_a, table_a, b, before_b, table_b, k);
        lemma_serves_both(b, before_b, table_b, a, before_a, table_a, k);
        let i = source(a, before_a, table_a[k]);
        let j = source(b, before_b, table_b[k]);
        assert(slot::comes_from(a, before_a, table_a[k]));
        assert(slot::comes_from(b, before_b, table_b[k]));
        assert(a[i].export_id == b[i].export_id);
        assert(a[j].export_id == b[j].export_id);
        assert(slot::slot_endpoint(a[i]) == slot::slot_endpoint(a[j]));
        assert(i == j);
    }
    assert(sa =~= sb);
}

/// A rebuild from a list of the same shape, such as the same list or one with other names,
/// neither owes a configuration bump nor moves the aggregator.
pub proof fn law_same_shape_needs_no_bump(
    p0: PlaneView,
    a: Seq<ExportView>,
    p1: PlaneView,
    b: Seq<ExportView>,
    p2: PlaneView,
)
    requires
        plane_rules::is_rebuilt_plane(p0, a, p1),
        plane_rules::is_rebuilt_plane(p1, b, p2),
        same_shape(a, b),
    ensures
        p2.config_dirty == p1.config_dirty,
        p2.aggregator_dataver == p1.aggregator_dataver,
        slot::surfaces(p2.slots) == slot::surfaces(p1.slots),
{
    lemma_same_surfaces(a, p0.slots, p1.slots, b, p1.slots, p2.slots);
}

/// A rebuild that changes what is bridged owes a configuration bump and wakes the stack.
pub proof fn law_new_surface_needs_bump(p0: PlaneView, a: Seq<ExportView>, p1: PlaneView)
    requires
        plane_rules::is_rebuilt_plane(p0, a, p1),
        slot::surfaces(p0.slots) != slot::surfaces(p1.slots),
    ensures
        p1.config_dirty,
        p1.wake,
        p1.aggregator_dataver != p0.aggregator_dataver,
{
}

/// Entity states never come back as commands, and change no other slot and nothing about
/// the node but the value that they carry.
pub proof fn law_states_queue_no_command(p: PlaneView, export_id: u128, states: Seq<HaStateValue>)
    ensures
        ({
            let after = plane_rules::applied_state(p, export_id, states).0;
            &&& after.commands == p.commands
            &&& after.config_dirty == p.config_dirty
            &&& after.known == p.known
            &&& after.slots.len() == p.slots.len()
            &&& slot::surfaces(after.slots) == slot::surfaces(p.slots)
            &&& forall|k: int|
                0 <= k < p.slots.len() && k != slot::index_for(p.slots, export_id)
                    ==> #[trigger] after.slots[k] == p.slots[k]
        }),
{
    let after = plane_rules::applied_state(p, export_id, states).0;
    slot::lemma_first_index_meaning(p.slots, |s: SlotView| s.export_id == export_id);
    assert(slot::surfaces(after.slots) =~= slot::surfaces(p.slots));
}

/// Entity states that say on or off are what the slot shows afterwards.
pub proof fn law_state_is_shown(p: PlaneView, export_id: u128, states: Seq<HaStateValue>)
    requires
        slot::slot_of(p.slots, export_id) is Some,
    ensures
        ({
            let before = slot::slot_of(p.slots, export_id)->0;
            let value = on_off_map::resolved_on(
                before.export.type_,
                before.export.primary_entity_id,
                states,
            );
            let after = slot::slot_of(
                plane_rules::applied_state(p, export_id, states).0.slots,
                export_id,
            );
            &&& after is Some
            &&& after->0.on == (if value is Some {
                value->0
            } else {
                before.on
            })
        }),
{
    lemma_index_after_state(p, export_id, states);
    slot::lemma_first_index_meaning(p.slots, |s: SlotView| s.export_id == export_id);
}

/// Applying states leaves the first slot of an export where it is.
proof fn lemma_index_after_state(p: PlaneView, export_id: u128, states: Seq<HaStateValue>)
    ensures
        slot::index_for(plane_rules::applied_state(p, export_id, states).0.slots, export_id)
            == slot::index_for(p.slots, export_id),
{
    let f = |s: SlotView| s.export_id == export_id;
    let after = plane_rules::applied_state(p, export_id, states).0;
    let k = slot::index_for(p.slots, export_id);
    slot::lemma_first_index_meaning(p.slots, f);
    assert forall|j: int| 0 <= j < k implies !f(#[trigger] after.slots[j]) by {
        assert(after.slots[j] == p.slots[j]);
    }
    slot::lemma_first_index(after.slots, f, k);
}

/// The same states a second time change nothing: no report, no wake-up, no new version.
pub proof fn law_repeated_state_changes_nothing(
    p: PlaneView,
    export_id: u128,
    states: Seq<HaStateValue>,
)
    ensures
        ({
            let once = plane_rules::applied_state(p, export_id, states).0;
            plane_rules::applied_state(once, export_id, states).0 == once
        }),
{
    lemma_index_after_state(p, export_id, states);
    slot::lemma_first_index_meaning(p.slots, |s: SlotView| s.export_id == export_id);
}

/// States for an export that the catalog does not know are not applied.
pub proof fn law_unknown_export_applies_nothing(
    p: PlaneView,
    export_id: u128,
    states: Seq<HaStateValue>,
)
    requires
        slot::slot_of(p.slots, export_id) is None,
        !p.known.contains(export_id),
    ensures
        plane_rules::applied_state(p, export_id, states) == (p, 0u32),
{
    slot::lemma_first_index_meaning(p.slots, |s: SlotView| s.export_id == export_id);
}

/// A controller's write is what the endpoint shows afterwards, queues exactly one command,
/// and touches no other endpoint; a write to an endpoint that nothing serves changes
/// nothing.
pub proof fn law_controller_write(p: PlaneView, endpoint: u16, on: bool)
    ensures
        ({
            let k = slot::index_at(p.slots, endpoint);
            let (after, served) = plane_rules::switched(p, endpoint, on);
            if k == p.slots.len() {
                after == p && !served
            } else {
                &&& served
                &&& 0 <= k < p.slots.len()
                &&& slot::index_at(after.slots, endpoint) == k
                &&& after.slots[k].on == on
                &&& after.commands == p.commands.push(
                    on_off_map::on_off_request(p.slots[k].export_id, on),
                )
                &&& forall|j: int|
                    0 <= j < p.slots.len() && j != k ==> #[trigger] after.slots[j] == p.slots[j]
            }
        }),
{
    let f = |s: SlotView| s.matter_endpoint == endpoint;
    let k = slot::index_at(p.slots, endpoint);
    slot::lemma_first_index_meaning(p.slots, f);
    if k < p.slots.len() {
        let after = plane_rules::switched(p, endpoint, on).0;
        assert forall|j: int| 0 <= j < k implies !f(#[trigger] after.slots[j]) by {
            assert(after.slots[j] == p.slots[j]);
        }
        slot::lemma_first_index(after.slots, f, k);
    }
}

/// Toggling twice restores the value.
pub proof fn law_toggle_twice(p: PlaneView, endpoint: u16)
    requires
        slot::index_at(p.slots, endpoint) < p.slots.len(),
    ensures
        ({
            let k = slot::index_at(p.slots, endpoint);
            let once = plane_rules::invoked(p, endpoint, ON_OFF_CLUSTER_ID, OnOffCommand::Toggle).0;
            let twice = plane_rules::invoked(
                once,
                endpoint,
                ON_OFF_CLUSTER_ID,
                OnOffCommand::Toggle,
            ).0;
            &&& once.slots[k].on == !p.slots[k].on
            &&& twice.slots[k].on == p.slots[k].on
            &&& twice.commands.len() == p.commands.len() + 2
        }),
{
    let k = slot::index_at(p.slots, endpoint);
    let once = plane_rules::invoked(p, endpoint, ON_OFF_CLUSTER_ID, OnOffCommand::Toggle).0;
    law_controller_write(p, endpoint, !p.slots[k].on);
    law_controller_write(once, endpoint, !once.slots[k].on);
}

/// Once taken, reports are not owed any more.
pub proof fn law_reports_are_taken_once(slots: Seq<SlotView>)
    ensures
        plane_rules::all_reports(
            slots.map_values(|s: SlotView| plane_rules::reported(s)),
        ).len() == 0,
        !slot::reports_owed(slots.map_values(|s: SlotView| plane_rules::reported(s))),
    decreases slots.len(),
{
    let done = slots.map_values(|s: SlotView| plane_rules::reported(s));
    if slots.len() > 0 {
        law_reports_are_taken_once(slots.drop_last());
        assert(done.drop_last() =~= slots.drop_last().map_values(
            |s: SlotView| plane_rules::reported(s),
        ));
    }
}

/// A plane owes a report exactly where taking the reports gives one.
pub proof fn law_owed_reports_are_given(slots: Seq<SlotView>)
    ensures
        slot::reports_owed(slots) <==> plane_rules::all_reports(slots).len() > 0,
    decreases slots.len(),
{
    if slots.len() > 0 {
        let front = slots.drop_last();
        law_owed_reports_are_given(front);
        if slot::reports_owed(front) {
            let k = choose|k: int| 0 <= k < front.len() && (#[trigger] front[k]).owes_report();
            assert(slots[k].owes_report());
        }
        if slots.last().owes_report() {
            assert(slots[slots.len() - 1].owes_report());
        }
        if slot::reports_owed(slots) && !slots.last().owes_report() {
            let k = choose|k: int| 0 <= k < slots.len() && (#[trigger] slots[k]).owes_report();
            assert(front[k].owes_report());
        }
    }
}

} // verus!
