//! Matter device types that the bridge publishes or knows of, with their revisions in the
//! Matter Device Library.
use vstd::prelude::*;

verus! {

/// A device type with its revision.
#[derive(Debug, Clone, Copy, PartialEq, Eq, Structural)]
pub struct MatterDeviceType {
    pub dtype: u16,
    pub drev: u16,
}

/// Aggregator: the endpoint that gathers the bridged ones.
pub const DEV_TYPE_AGGREGATOR: u16 = 0x000E;
pub const DEV_REV_AGGREGATOR: u16 = 1;

/// Bridged Node: every bridged endpoint.
pub const DEV_TYPE_BRIDGED_NODE: u16 = 0x0013;
pub const DEV_REV_BRIDGED_NODE: u16 = 1;

/// On/Off Light.
pub const DEV_TYPE_ON_OFF_LIGHT: u16 = 0x0100;
pub const DEV_REV_ON_OFF_LIGHT: u16 = 3;

/// On/Off Plug-in Unit: a mains outlet or relay exposed as on/off.
pub const DEV_TYPE_ON_OFF_PLUG_IN_UNIT: u16 = 0x010A;
pub const DEV_REV_ON_OFF_PLUG_IN_UNIT: u16 = 3;

/// Contact Sensor: open/closed reported through Boolean State.
pub const DEV_TYPE_CONTACT_SENSOR: u16 = 0x0015;
pub const DEV_REV_CONTACT_SENSOR: u16 = 2;

/// Occupancy Sensor: motion/presence reported through Occupancy Sensing.
pub const DEV_TYPE_OCCUPANCY_SENSOR: u16 = 0x0107;
pub const DEV_REV_OCCUPANCY_SENSOR: u16 = 4;

/// Window Covering: blinds/shades driven through Window Covering.
pub const DEV_TYPE_WINDOW_COVERING: u16 = 0x0202;
pub const DEV_REV_WINDOW_COVERING: u16 = 5;

} // verus!
