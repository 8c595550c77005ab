//! Bridged endpoint plane.

use std::collections::BTreeMap;

use thatsmatter_bridge::catalog::{DeviceType, Export, HaStateValue};
use thatsmatter_bridge::matter::device_types::{
    DEV_TYPE_AGGREGATOR, DEV_TYPE_BRIDGED_NODE, DEV_TYPE_ON_OFF_LIGHT, DEV_TYPE_ON_OFF_PLUG_IN_UNIT,
};
use thatsmatter_bridge::matter::error_code::ErrorCode;
use thatsmatter_bridge::matter::export_plane::{BridgedEndpointMatcher, ExportPlane};
use thatsmatter_bridge::matter::layout::{
    AGGREGATOR_ENDPOINT_ID, BRIDGED_INFO_CLUSTER_ID, DESC_CLUSTER_ID, NODE_LABEL_ATTRIBUTE_ID,
    NODE_LABEL_MAX_BYTES, ON_OFF_ATTRIBUTE_ID, ON_OFF_CLUSTER_ID, ROOT_ENDPOINT_ID,
};
use thatsmatter_bridge::matter::node_label::clamp_utf8;
use thatsmatter_bridge::matter::plane_rules::{OnOffCommand, ReadTarget};
use thatsmatter_bridge::matter::slot::ExportSlot;
use uuid::Uuid;

fn new_id() -> u128 {
    Uuid::new_v4().as_u128()
}

fn export(
    id: u128,
    name: &str,
    entity: &str,
    type_: DeviceType,
    enabled: bool,
    ep: Option<u16>,
) -> Export {
    Export {
        export_id: id,
        name: name.into(),
        type_,
        primary_entity_id: entity.into(),
        linked: BTreeMap::new(),
        area_id: None,
        enabled,
        endpoint_id: ep,
    }
}

fn lamp(id: u128) -> Export {
    export(id, "Lamp", "light.a", DeviceType::Light, true, Some(1))
}

fn state(entity: &str, value: &str) -> HaStateValue {
    HaStateValue {
        entity_id: entity.into(),
        state: value.into(),
        attributes: Vec::new(),
    }
}

#[test]
fn set_exports_maps_enabled_on_off_exports_to_catalog_endpoint_plus_one() {
    let mut plane = ExportPlane::new();
    let (a, b, c, d) = (new_id(), new_id(), new_id(), new_id());
    plane.set_exports(&[
        export(a, "Lamp", "light.a", DeviceType::Light, true, Some(4)),
        export(b, "Plug", "switch.b", DeviceType::OnOffPlug, true, Some(1)),
        // Disabled: not bridged.
        export(c, "Off", "light.c", DeviceType::Light, false, Some(7)),
        // Not on/off capable: not bridged.
        export(d, "Door", "binary_sensor.d", DeviceType::Contact, true, Some(9)),
    ]);

    assert_eq!(plane.endpoint_ids(), vec![2, 5], "catalog endpoint_id + 1, ascending");
}

#[test]
fn set_exports_skips_endpoints_that_collide_with_the_bridge_layout() {
    let mut plane = ExportPlane::new();
    let (a, b, c) = (new_id(), new_id(), new_id());
    plane.set_exports(&[
        // endpoint_id 0 would land on the aggregator.
        export(a, "Bad", "light.a", DeviceType::Light, true, Some(0)),
        // Never assigned an endpoint.
        export(b, "Unassigned", "light.b", DeviceType::Light, true, None),
        export(c, "Good", "light.c", DeviceType::Light, true, Some(3)),
    ]);
    assert_eq!(plane.endpoint_ids(), vec![4]);
}

#[test]
fn the_last_catalog_endpoint_has_no_endpoint_above_it() {
    let mut plane = ExportPlane::new();
    plane.set_exports(&[
        export(1, "Last", "light.a", DeviceType::Light, true, Some(u16::MAX)),
        export(2, "Next to last", "light.b", DeviceType::Light, true, Some(u16::MAX - 1)),
    ]);
    assert_eq!(plane.endpoint_ids(), vec![u16::MAX]);
    assert_eq!(plane.on_for(2), Some(false));
    assert_eq!(plane.on_for(1), None);
}

#[test]
fn set_exports_preserves_on_state_across_rebuild_for_same_export_id() {
    let mut plane = ExportPlane::new();
    let (id, other) = (new_id(), new_id());
    plane.set_exports(&[lamp(id)]);
    assert_eq!(plane.apply_state(id, &[state("light.a", "on")]), 1);
    assert!(plane.on_for(id).unwrap());

    plane.set_exports(&[
        lamp(id),
        export(other, "Plug", "switch.b", DeviceType::OnOffPlug, true, Some(2)),
    ]);
    assert!(plane.on_for(id).unwrap(), "on state survives the rebuild");
    assert!(!plane.on_for(other).unwrap(), "new slot starts off");
}

#[test]
fn rebuild_keeps_data_versions_moving_forward() {
    let mut plane = ExportPlane::new();
    let id = new_id();
    let exports = [lamp(id)];
    plane.set_exports(&exports);
    let before = plane.slot_for(id).unwrap().functional_dataver;

    plane.apply_state(id, &[state("light.a", "on")]);
    let bumped = plane.slot_for(id).unwrap().functional_dataver;
    assert_ne!(before, bumped);

    plane.set_exports(&exports);
    let after = plane.slot_for(id).unwrap().functional_dataver;
    assert_eq!(bumped, after, "data version must not restart on rebuild");
}

#[test]
fn apply_state_flips_the_slot_and_counts_applied_values() {
    let mut plane = ExportPlane::new();
    let id = new_id();
    plane.set_exports(&[lamp(id)]);

    let applied = plane.apply_state(id, &[state("light.a", "on"), state("sensor.battery", "50")]);
    assert_eq!(applied, 2);
    assert!(plane.on_for(id).unwrap());

    assert_eq!(plane.apply_state(id, &[state("light.a", "off")]), 1);
    assert!(!plane.on_for(id).unwrap());

    assert_eq!(plane.apply_state(new_id(), &[state("light.z", "on")]), 0);
}

#[test]
fn states_of_a_known_export_without_a_slot_are_counted() {
    let mut plane = ExportPlane::new();
    plane.set_exports(&[export(7, "Door", "binary_sensor.d", DeviceType::Contact, true, Some(3))]);
    assert_eq!(plane.apply_state(7, &[state("binary_sensor.d", "on")]), 1);
    assert_eq!(plane.on_for(7), None);
    assert!(plane.drain_reports().is_empty());
}

#[test]
fn apply_state_queues_a_subscription_report_only_when_the_value_moves() {
    let mut plane = ExportPlane::new();
    let id = new_id();
    plane.set_exports(&[lamp(id)]);
    plane.drain_reports();

    plane.apply_state(id, &[state("light.a", "on")]);
    assert_eq!(plane.drain_reports(), vec![(2, ON_OFF_CLUSTER_ID, ON_OFF_ATTRIBUTE_ID)]);

    plane.apply_state(id, &[state("light.a", "on")]);
    assert!(plane.drain_reports().is_empty(), "unchanged state reports nothing");
}

#[test]
fn renaming_an_export_reports_the_node_label_without_a_config_bump() {
    let mut plane = ExportPlane::new();
    let id = new_id();
    plane.set_exports(&[lamp(id)]);
    plane.take_config_bump();
    plane.drain_reports();

    plane.set_exports(&[export(id, "Desk Lamp", "light.a", DeviceType::Light, true, Some(1))]);
    assert!(!plane.config_bump_pending(), "a rename does not change the node shape");
    assert_eq!(
        plane.drain_reports(),
        vec![(2, BRIDGED_INFO_CLUSTER_ID, NODE_LABEL_ATTRIBUTE_ID)]
    );
}

#[test]
fn controller_writes_enqueue_commands_and_ha_writes_do_not() {
    let mut plane = ExportPlane::new();
    let id = new_id();
    plane.set_exports(&[lamp(id)]);

    plane.apply_state(id, &[state("light.a", "on")]);
    assert!(
        plane.take_commands().is_empty(),
        "HA state must not echo back as a command"
    );

    assert!(plane.apply_controller_on_off(2, false));
    assert!(!plane.on_for(id).unwrap());
    let cmds = plane.take_commands();
    assert_eq!(cmds.len(), 1);
    assert_eq!(cmds[0].export_id, id);
    assert_eq!(cmds[0].on, Some(false));

    assert!(!plane.apply_controller_on_off(99, true), "unknown endpoint");
    assert!(plane.take_commands().is_empty());
}

#[test]
fn take_commands_drains_the_queue() {
    let mut plane = ExportPlane::new();
    let id = new_id();
    plane.set_exports(&[lamp(id)]);
    plane.apply_controller_on_off(2, true);
    plane.apply_controller_on_off(2, false);
    assert_eq!(plane.take_commands().len(), 2);
    assert!(plane.take_commands().is_empty());
}

#[test]
fn config_bump_is_requested_only_when_the_endpoint_set_changes() {
    let mut plane = ExportPlane::new();
    let id = new_id();
    let exports = [lamp(id)];

    plane.set_exports(&exports);
    assert!(plane.config_bump_pending(), "first export set changes the surface");
    assert!(plane.take_config_bump());
    assert!(!plane.config_bump_pending());

    plane.set_exports(&exports);
    assert!(!plane.config_bump_pending(), "identical set must not bump");

    plane.set_exports(&[]);
    assert!(
        plane.config_bump_pending(),
        "removing the last endpoint changes the surface"
    );
}

#[test]
fn a_failed_config_bump_stays_owed() {
    let mut plane = ExportPlane::new();
    plane.set_exports(&[lamp(1)]);
    let parts = vec![
        (ROOT_ENDPOINT_ID, DESC_CLUSTER_ID),
        (AGGREGATOR_ENDPOINT_ID, DESC_CLUSTER_ID),
    ];
    assert_eq!(plane.config_bump_tried(false), parts);
    assert!(plane.config_bump_pending());
    assert_eq!(plane.config_bump_tried(true), parts);
    assert!(!plane.config_bump_pending());
}

#[test]
fn a_new_type_at_an_endpoint_is_a_new_surface() {
    let mut plane = ExportPlane::with_version(41);
    plane.set_exports(&[lamp(1)]);
    plane.take_config_bump();
    let before = plane.slot_for(1).unwrap().desc_dataver;
    plane.set_exports(&[export(1, "Lamp", "light.a", DeviceType::Outlet, true, Some(1))]);
    assert!(plane.config_bump_pending());
    assert_eq!(plane.slot_for(1).unwrap().desc_dataver, before.wrapping_add(1));
    assert_eq!(
        plane.read(AGGREGATOR_ENDPOINT_ID, DESC_CLUSTER_ID),
        Ok(ReadTarget::AggregatorDescriptor { dataver: 43 })
    );

    // A switch and an outlet look the same to controllers.
    plane.take_config_bump();
    plane.set_exports(&[export(1, "Lamp", "light.a", DeviceType::OnOffSwitch, true, Some(1))]);
    assert!(!plane.config_bump_pending());
}

#[test]
fn node_exposes_root_aggregator_and_bridged_endpoints_in_order() {
    let mut plane = ExportPlane::new();
    plane.set_exports(&[
        export(new_id(), "Lamp", "light.a", DeviceType::Light, true, Some(4)),
        export(new_id(), "Plug", "switch.b", DeviceType::OnOffPlug, true, Some(1)),
    ]);

    let node = plane.endpoints();
    let ids: Vec<u16> = node.iter().map(|e| e.id).collect();
    assert_eq!(ids, vec![ROOT_ENDPOINT_ID, AGGREGATOR_ENDPOINT_ID, 2, 5]);

    let endpoint = |id: u16| node.iter().find(|e| e.id == id).unwrap();
    let dtypes =
        |id: u16| -> Vec<u16> { endpoint(id).device_types.iter().map(|d| d.dtype).collect() };

    assert_eq!(dtypes(AGGREGATOR_ENDPOINT_ID), vec![DEV_TYPE_AGGREGATOR]);
    assert_eq!(endpoint(AGGREGATOR_ENDPOINT_ID).clusters.len(), 1, "descriptor only");

    assert_eq!(endpoint(2).clusters.len(), 3, "descriptor + bridged info + on/off");
    assert_eq!(dtypes(2), vec![DEV_TYPE_ON_OFF_PLUG_IN_UNIT, DEV_TYPE_BRIDGED_NODE]);
    assert_eq!(dtypes(5), vec![DEV_TYPE_ON_OFF_LIGHT, DEV_TYPE_BRIDGED_NODE]);
}

fn two_lamps() -> (ExportPlane, [u128; 2]) {
    let ids = [new_id(), new_id()];
    let mut plane = ExportPlane::new();
    plane.set_exports(&[
        export(ids[0], "A", "light.a", DeviceType::Light, true, Some(1)),
        export(ids[1], "B", "light.b", DeviceType::Light, true, Some(2)),
    ]);
    (plane, ids)
}

fn versions(plane: &ExportPlane, ids: &[u128], of: fn(&ExportSlot) -> u32) -> Vec<u32> {
    ids.iter().map(|id| of(plane.slot_for(*id).unwrap())).collect()
}

#[test]
fn bump_dataver_visits_every_slot() {
    let (mut plane, ids) = two_lamps();
    let before = versions(&plane, &ids, |s| s.functional_dataver);

    // No endpoint named: every slot must be bumped, not just the first match.
    plane.bump_dataver(None, Some(ON_OFF_CLUSTER_ID));

    assert_eq!(
        versions(&plane, &ids, |s| s.functional_dataver),
        before.iter().map(|v| v.wrapping_add(1)).collect::<Vec<_>>()
    );
}

#[test]
fn bump_dataver_targets_one_endpoint_and_one_cluster() {
    let (mut plane, ids) = two_lamps();
    let before = versions(&plane, &ids, |s| s.functional_dataver);
    let desc_before = versions(&plane, &ids, |s| s.desc_dataver);

    plane.bump_dataver(Some(3), Some(ON_OFF_CLUSTER_ID));

    let after = versions(&plane, &ids, |s| s.functional_dataver);
    assert_eq!(after[0], before[0], "endpoint 2 must not move");
    assert_eq!(after[1], before[1].wrapping_add(1), "endpoint 3 must move");
    assert_eq!(
        versions(&plane, &ids, |s| s.desc_dataver),
        desc_before,
        "a different cluster must not move"
    );
}

#[test]
fn matcher_covers_the_aggregator_and_bridged_endpoints_only() {
    assert!(!BridgedEndpointMatcher.matches(Some(ROOT_ENDPOINT_ID)));
    assert!(BridgedEndpointMatcher.matches(Some(AGGREGATOR_ENDPOINT_ID)));
    assert!(BridgedEndpointMatcher.matches(Some(2)));
    assert!(BridgedEndpointMatcher.matches(None), "wildcard dataver bumps");
}

#[test]
fn node_label_is_clamped_to_the_matter_limit() {
    assert_eq!(clamp_utf8("short", NODE_LABEL_MAX_BYTES), "short");
    let long = "é".repeat(40);
    let clamped = clamp_utf8(&long, NODE_LABEL_MAX_BYTES);
    assert!(clamped.len() <= NODE_LABEL_MAX_BYTES);
    assert_eq!(clamped, "é".repeat(16));
}

#[test]
fn node_labels_end_between_characters() {
    let odd = format!("x{}", "é".repeat(40));
    assert_eq!(clamp_utf8(&odd, NODE_LABEL_MAX_BYTES), format!("x{}", "é".repeat(15)));
    assert_eq!(clamp_utf8("𝄞𝄞", 7), "𝄞");
    assert_eq!(clamp_utf8("𝄞", 3), "");
    assert_eq!(clamp_utf8("", 0), "");
    assert_eq!(clamp_utf8("ab", 2), "ab");
}

#[test]
fn of_two_exports_at_one_endpoint_the_lesser_identity_is_bridged() {
    let mut plane = ExportPlane::new();
    plane.set_exports(&[
        export(9, "First", "light.a", DeviceType::Light, true, Some(5)),
        export(3, "Second", "light.b", DeviceType::Light, true, Some(5)),
    ]);
    assert_eq!(plane.endpoint_ids(), vec![6]);
    assert_eq!(plane.on_for(3), Some(false));
    assert_eq!(plane.on_for(9), None);
}

#[test]
fn reads_are_answered_by_cluster() {
    let mut plane = ExportPlane::new();
    let id = 0xaaaaaaaa_bbbb_4ccc_8ddd_eeeeeeeeeeee;
    plane.set_exports(&[lamp(id)]);
    plane.apply_state(id, &[state("light.a", "on")]);
    let slot = plane.slot_for(id).unwrap();
    let (desc, info, functional) =
        (slot.desc_dataver, slot.bridged_info_dataver, slot.functional_dataver);
    assert_eq!(slot.name(), "Lamp");

    assert_eq!(plane.read(2, DESC_CLUSTER_ID), Ok(ReadTarget::Descriptor { dataver: desc }));
    assert_eq!(
        plane.read(2, BRIDGED_INFO_CLUSTER_ID),
        Ok(ReadTarget::BridgedInfo {
            dataver: info,
            unique_id: "aaaaaaaabbbb4ccc8dddeeeeeeeeeeee".into(),
            node_label: "Lamp".into(),
        })
    );
    assert_eq!(
        plane.read(2, ON_OFF_CLUSTER_ID),
        Ok(ReadTarget::OnOff {
            dataver: functional,
            on: true,
        })
    );
    assert_eq!(plane.read(2, 0x0008), Err(ErrorCode::ClusterNotFound));
    assert_eq!(plane.read(3, ON_OFF_CLUSTER_ID), Err(ErrorCode::EndpointNotFound));
    assert_eq!(
        plane.read(AGGREGATOR_ENDPOINT_ID, ON_OFF_CLUSTER_ID),
        Err(ErrorCode::ClusterNotFound)
    );
}

#[test]
fn commands_switch_and_are_queued() {
    let mut plane = ExportPlane::new();
    plane.set_exports(&[lamp(1)]);
    assert_eq!(plane.invoke(2, ON_OFF_CLUSTER_ID, OnOffCommand::Toggle), Ok(()));
    assert_eq!(plane.on_for(1), Some(true));
    assert_eq!(plane.invoke(2, ON_OFF_CLUSTER_ID, OnOffCommand::Toggle), Ok(()));
    assert_eq!(plane.on_for(1), Some(false));
    assert_eq!(plane.invoke(2, ON_OFF_CLUSTER_ID, OnOffCommand::On), Ok(()));
    assert_eq!(plane.invoke(2, ON_OFF_CLUSTER_ID, OnOffCommand::Off), Ok(()));
    let on: Vec<_> = plane.take_commands().iter().map(|c| c.on.unwrap()).collect();
    assert_eq!(on, vec![true, false, true, false]);

    assert_eq!(
        plane.invoke(2, ON_OFF_CLUSTER_ID, OnOffCommand::Lighting),
        Err(ErrorCode::CommandNotFound)
    );
    assert_eq!(
        plane.invoke(2, DESC_CLUSTER_ID, OnOffCommand::On),
        Err(ErrorCode::CommandNotFound)
    );
    assert_eq!(
        plane.invoke(9, ON_OFF_CLUSTER_ID, OnOffCommand::On),
        Err(ErrorCode::EndpointNotFound)
    );
    assert!(plane.take_commands().is_empty());
}

#[test]
fn the_stack_is_woken_for_what_it_has_to_report() {
    let mut plane = ExportPlane::new();
    assert!(!plane.take_wake());
    plane.set_exports(&[lamp(1)]);
    assert!(plane.take_wake(), "new endpoint");
    plane.set_exports(&[lamp(1)]);
    assert!(!plane.take_wake(), "nothing changed");
    plane.apply_state(1, &[state("light.a", "on")]);
    assert!(plane.take_wake(), "entity state");
    plane.apply_state(1, &[state("light.a", "on")]);
    assert!(!plane.take_wake(), "same entity state");
    assert!(!plane.take_wake(), "the flag is taken once");
}

#[test]
fn fresh_slots_draw_their_data_versions() {
    // Six equal draws of thirty-two bits each do not happen by chance.
    let (plane, ids) = two_lamps();
    let mut drawn = versions(&plane, &ids, |s| s.functional_dataver);
    drawn.extend(versions(&plane, &ids, |s| s.desc_dataver));
    drawn.extend(versions(&plane, &ids, |s| s.bridged_info_dataver));
    assert!(drawn.iter().any(|v| *v != drawn[0]));
}
