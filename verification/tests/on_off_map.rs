//! On/off mapping between entity state and controller commands.

use std::collections::BTreeMap;

use thatsmatter_bridge::catalog::{CommandKind, DeviceType, Export, HaStateValue};
use thatsmatter_bridge::matter::on_off_map::{
    ha_service_for_on_off, ha_state_is_on, is_matter_on_off_export, on_off_command,
    on_off_device_types, on_off_from_states, primary_on_off_export,
};
use uuid::Uuid;

fn exp(id: u128, entity: &str, type_: DeviceType, enabled: bool, ep: Option<u16>) -> Export {
    Export {
        export_id: id,
        name: "t".into(),
        type_,
        primary_entity_id: entity.into(),
        linked: BTreeMap::new(),
        area_id: None,
        enabled,
        endpoint_id: ep,
    }
}

fn state(entity: &str, value: &str) -> HaStateValue {
    HaStateValue {
        entity_id: entity.into(),
        state: value.into(),
        attributes: Vec::new(),
    }
}

fn new_id() -> u128 {
    Uuid::new_v4().as_u128()
}

#[test]
fn parses_common_on_off_states() {
    assert_eq!(ha_state_is_on("on"), Some(true));
    assert_eq!(ha_state_is_on("OFF"), Some(false));
    assert_eq!(ha_state_is_on("unavailable"), None);
}

#[test]
fn parses_every_on_off_word_with_space_and_case() {
    for word in ["on", "true", "1", "open", "home", "locked"] {
        assert_eq!(ha_state_is_on(word), Some(true), "{word}");
        assert_eq!(ha_state_is_on(&format!("\t {} \u{3000}", word.to_uppercase())), Some(true));
    }
    for word in ["off", "false", "0", "closed", "not_home", "unlocked"] {
        assert_eq!(ha_state_is_on(word), Some(false), "{word}");
        assert_eq!(ha_state_is_on(&format!("{word}\n")), Some(false));
    }
    for word in ["", " ", "onn", "2", "o n", "unknown", "ＯＮ"] {
        assert_eq!(ha_state_is_on(word), None, "{word}");
    }
}

#[test]
fn prefers_primary_entity_state() {
    let e = exp(new_id(), "light.a", DeviceType::Light, true, Some(1));
    let states = [state("sensor.x", "off"), state("light.a", "on")];
    assert_eq!(on_off_from_states(&e, &states), Some(true));
}

#[test]
fn falls_back_to_the_first_parsable_state() {
    let e = exp(new_id(), "light.a", DeviceType::Light, true, Some(1));
    let states = [
        state("light.a", "unavailable"),
        state("sensor.y", "?"),
        state("sensor.x", "off"),
        state("sensor.z", "on"),
    ];
    assert_eq!(on_off_from_states(&e, &states), Some(false));
    assert_eq!(on_off_from_states(&e, &states[..2]), None);
    assert_eq!(on_off_from_states(&e, &[]), None);
    let door = exp(new_id(), "light.a", DeviceType::Contact, true, Some(1));
    assert_eq!(on_off_from_states(&door, &states), None);
}

#[test]
fn primary_export_picks_lowest_endpoint() {
    let a = exp(new_id(), "light.a", DeviceType::Light, true, Some(2));
    let b = exp(new_id(), "switch.b", DeviceType::OnOffSwitch, true, Some(1));
    let list = [a.clone(), b.clone()];
    let p = primary_on_off_export(&list).unwrap();
    assert_eq!(p.export_id, b.export_id);
}

#[test]
fn primary_export_breaks_ties_by_name_then_position() {
    let named = |name: &str, ep: Option<u16>| {
        let mut e = exp(new_id(), "light.a", DeviceType::Light, true, ep);
        e.name = name.into();
        e
    };
    let list = [named("Zed", Some(3)), named("Abe", Some(3)), named("Abe", Some(3))];
    assert_eq!(primary_on_off_export(&list).unwrap().export_id, list[1].export_id);
    let list = [named("a", None), named("b", Some(65535)), named("Z", None)];
    assert_eq!(primary_on_off_export(&list).unwrap().export_id, list[2].export_id);
    let list = [named("ab", Some(1)), named("a", Some(1))];
    assert_eq!(primary_on_off_export(&list).unwrap().export_id, list[1].export_id);
}

#[test]
fn disabled_exports_skipped() {
    let a = exp(new_id(), "light.a", DeviceType::Light, false, Some(1));
    assert!(!is_matter_on_off_export(&a));
    assert!(primary_on_off_export(&[a]).is_none());
}

#[test]
fn ha_service_mapping() {
    assert_eq!(ha_service_for_on_off("light.k", true), ("light", "turn_on"));
    assert_eq!(ha_service_for_on_off("switch.k", false), ("switch", "turn_off"));
}

#[test]
fn ha_service_mapping_of_other_domains() {
    assert_eq!(ha_service_for_on_off("input_boolean.k", false), ("input_boolean", "turn_off"));
    assert_eq!(ha_service_for_on_off("cover.k", true), ("cover", "open_cover"));
    assert_eq!(ha_service_for_on_off("cover.k.l", false), ("cover", "close_cover"));
    assert_eq!(ha_service_for_on_off("fan.k", true), ("switch", "turn_on"));
    assert_eq!(ha_service_for_on_off("light", true), ("light", "turn_on"));
    assert_eq!(ha_service_for_on_off("", true), ("switch", "turn_on"));
}

#[test]
fn command_shape() {
    let id = new_id();
    let c = on_off_command(id, true);
    assert_eq!(c.kind, CommandKind::OnOff);
    assert_eq!(c.on, Some(true));
    assert_eq!(c.export_id, id);
    assert_eq!(c.level, None);
    assert_eq!(c.position, None);
}

#[test]
fn on_off_types_are_the_capable_ones() {
    let all = [
        DeviceType::Light,
        DeviceType::OnOffSwitch,
        DeviceType::OnOffPlug,
        DeviceType::Outlet,
        DeviceType::Contact,
        DeviceType::Motion,
        DeviceType::Cover,
        DeviceType::Garage,
    ];
    for t in all {
        assert_eq!(t.is_on_off_capable(), on_off_device_types().contains(&t), "{t:?}");
    }
}
