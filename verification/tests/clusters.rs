//! Cluster values.

use thatsmatter_bridge::catalog::{AttributeValue, HaStateValue};
use thatsmatter_bridge::matter::clusters::boolean_state::state_value_from_ha_on;
use thatsmatter_bridge::matter::clusters::occupancy::{
    occupancy_bitmap, sensor_type, sensor_type_bitmap, OccupancySensorType, OCCUPIED,
    SENSOR_TYPE_PIR,
};
use thatsmatter_bridge::matter::clusters::window_covering::{
    accept_mode_write, config_status, cover_type, end_product_type, ha_cover_from_state,
    ha_position_to_percent100ths, mode, operational_status, percent100ths_to_ha_position,
    validate_lift_percent100ths, CoverMotion, CoverType, EndProductType, MODE_CALIBRATION_MODE,
    MODE_LED_FEEDBACK, MODE_MOTOR_DIRECTION_REVERSED,
};
use thatsmatter_bridge::matter::error_code::ErrorCode;

fn cover(state: &str, position: Option<AttributeValue>) -> HaStateValue {
    HaStateValue {
        entity_id: "cover.a".into(),
        state: state.into(),
        attributes: match position {
            Some(p) => vec![
                ("friendly_name".into(), AttributeValue::Text("Shade".into())),
                ("current_position".into(), p),
            ],
            None => Vec::new(),
        },
    }
}

#[test]
fn contact_on_maps_to_state_value_false() {
    assert!(!state_value_from_ha_on(true), "HA on (open) → Matter false");
    assert!(state_value_from_ha_on(false), "HA off (closed) → Matter true");
}

#[test]
fn motion_on_sets_occupied_bit() {
    assert!(occupancy_bitmap(true) & OCCUPIED == OCCUPIED);
    assert!(occupancy_bitmap(false) & OCCUPIED == 0);
    assert_eq!(sensor_type(), OccupancySensorType::Pir);
    assert!(sensor_type_bitmap() & SENSOR_TYPE_PIR == SENSOR_TYPE_PIR);
}

#[test]
fn percent100ths_round_trip_endpoints() {
    assert_eq!(ha_position_to_percent100ths(100), 0);
    assert_eq!(ha_position_to_percent100ths(0), 10_000);
    assert_eq!(percent100ths_to_ha_position(0), 100);
    assert_eq!(percent100ths_to_ha_position(10_000), 0);
}

#[test]
fn percent100ths_round_trip_midpoints() {
    assert_eq!(ha_position_to_percent100ths(37), 6300);
    assert_eq!(percent100ths_to_ha_position(6300), 37);
    assert_eq!(ha_position_to_percent100ths(50), 5000);
    assert_eq!(percent100ths_to_ha_position(5000), 50);
    for ha in [0u8, 1, 25, 37, 50, 75, 99, 100] {
        let p = ha_position_to_percent100ths(ha);
        assert_eq!(percent100ths_to_ha_position(p), ha, "round-trip ha={ha}");
    }
}

#[test]
fn percent100ths_round_trip_of_every_position() {
    for ha in 0u8..=100 {
        assert_eq!(percent100ths_to_ha_position(ha_position_to_percent100ths(ha)), ha);
    }
    for ha in 0u8..100 {
        assert!(ha_position_to_percent100ths(ha + 1) < ha_position_to_percent100ths(ha));
    }
}

#[test]
fn ha_position_clamps_above_100() {
    assert_eq!(ha_position_to_percent100ths(200), 0);
}

#[test]
fn percent100ths_rounds_down_and_clamps() {
    assert_eq!(percent100ths_to_ha_position(1), 99);
    assert_eq!(percent100ths_to_ha_position(9_999), 0);
    assert_eq!(percent100ths_to_ha_position(u16::MAX), 0);
}

#[test]
fn lift_percent100ths_range_is_0_to_10000() {
    assert_eq!(validate_lift_percent100ths(0), Ok(0));
    assert_eq!(validate_lift_percent100ths(6300), Ok(6300));
    assert_eq!(validate_lift_percent100ths(10_000), Ok(10_000));
    assert_eq!(validate_lift_percent100ths(10_001), Err(ErrorCode::ConstraintError));
}

#[test]
fn mode_write_accepts_empty_rejects_bits() {
    assert_eq!(accept_mode_write(0), Ok(()));
    assert_eq!(accept_mode_write(mode()), Ok(()));
    assert_eq!(
        accept_mode_write(MODE_MOTOR_DIRECTION_REVERSED),
        Err(ErrorCode::ConstraintError)
    );
    assert_eq!(
        accept_mode_write(MODE_CALIBRATION_MODE | MODE_LED_FEEDBACK),
        Err(ErrorCode::ConstraintError)
    );
}

#[test]
fn operational_status_from_motion() {
    assert_eq!(operational_status(50, 50, false), 0);
    assert_eq!(operational_status(50, 100, false), 0);
    // Opening: GLOBAL=1, LIFT=1 → bits 0b0101
    assert_eq!(operational_status(20, 100, true), 0b0101);
    // Closing: GLOBAL=2, LIFT=2 → bits 0b1010
    assert_eq!(operational_status(80, 0, true), 0b1010);
    assert_eq!(operational_status(80, 80, true), 0);
}

#[test]
fn covering_is_online_and_knows_its_lift_position() {
    assert_eq!(config_status(), 0b0000_1001);
    assert_eq!(cover_type(false), CoverType::RollerShade);
    assert_eq!(cover_type(true), CoverType::Shutter);
    assert_eq!(end_product_type(false), EndProductType::RollerShade);
    assert_eq!(end_product_type(true), EndProductType::RollerShutter);
}

#[test]
fn ha_cover_reads_current_position_attribute() {
    let st = HaStateValue {
        entity_id: "cover.shade".into(),
        state: "open".into(),
        attributes: vec![("current_position".into(), AttributeValue::Unsigned(37))],
    };
    let parsed = ha_cover_from_state(&st);
    assert_eq!(parsed.position, Some(37));
    assert_eq!(parsed.motion, CoverMotion::Stopped);
}

#[test]
fn ha_cover_reads_every_kind_of_position() {
    let position = |p| ha_cover_from_state(&cover("closed", Some(p))).position;
    assert_eq!(position(AttributeValue::Unsigned(250)), Some(100));
    assert_eq!(position(AttributeValue::Negative(-3)), Some(0));
    assert_eq!(
        position(AttributeValue::Real { text: "41.9".into(), whole: 41.9f64 as u64 }),
        Some(41)
    );
    assert_eq!(
        position(AttributeValue::Real { text: "-1.5".into(), whole: -1.5f64 as u64 }),
        Some(0)
    );
    assert_eq!(position(AttributeValue::Text("42".into())), Some(42));
    assert_eq!(position(AttributeValue::Text("+7".into())), Some(7));
    // What is no number falls back to the state.
    assert_eq!(position(AttributeValue::Text(" 42".into())), Some(0));
    assert_eq!(position(AttributeValue::Text("-1".into())), Some(0));
    assert_eq!(position(AttributeValue::Text("".into())), Some(0));
    assert_eq!(position(AttributeValue::Null), Some(0));
    assert_eq!(position(AttributeValue::Bool(true)), Some(0));
    assert_eq!(position(AttributeValue::Json("[1]".into())), Some(0));
}

#[test]
fn ha_cover_falls_back_to_open_closed_state() {
    assert_eq!(ha_cover_from_state(&cover("open", None)).position, Some(100));
    assert_eq!(ha_cover_from_state(&cover("closed", None)).position, Some(0));
    assert_eq!(ha_cover_from_state(&cover(" Open ", None)).position, Some(100));
    assert_eq!(ha_cover_from_state(&cover("unknown", None)).position, None);
}

#[test]
fn ha_cover_detects_opening_closing() {
    assert_eq!(ha_cover_from_state(&cover("opening", None)).motion, CoverMotion::Opening);
    assert_eq!(ha_cover_from_state(&cover("closing", None)).motion, CoverMotion::Closing);
    assert_eq!(ha_cover_from_state(&cover("opening", None)).position, None);
}
