//! Occupancy Sensing cluster (0x0406) for motion and presence sensors.
//!
//! The sensor is reported as passive infrared (PIR).
use vstd::prelude::*;

verus! {

/// Bit 0 of the occupancy bitmap.
pub const OCCUPIED: u8 = 0x01;

/// The PIR bit of the sensor type bitmap.
pub const SENSOR_TYPE_PIR: u8 = 0x01;

/// Kinds of occupancy sensor.
#[derive(Debug, Clone, Copy, PartialEq, Eq, Structural)]
pub enum OccupancySensorType {
    Pir,
    Ultrasonic,
    PirAndUltrasonic,
    PhysicalContact,
}

/// The occupancy bitmap of a slot that is occupied or not.
pub fn occupancy_bitmap(occupied: bool) -> (r: u8)
    ensures
        r == (if occupied {
            OCCUPIED
        } else {
            0
        }),
{
    if occupied {
        OCCUPIED
    } else {
        0
    }
}

/// The sensor type, always PIR.
pub fn sensor_type() -> (r: OccupancySensorType)
    ensures
        r == OccupancySensorType::Pir,
{
    OccupancySensorType::Pir
}

/// The sensor type bitmap, always PIR alone.
pub fn sensor_type_bitmap() -> (r: u8)
    ensures
        r == SENSOR_TYPE_PIR,
{
    SENSOR_TYPE_PIR
}

} // verus!
