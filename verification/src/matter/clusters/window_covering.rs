//! Window Covering cluster (0x0102) for cover and garage exports: lift with position, no
//! tilt.
//!
//! Positions: Matter counts hundredths of a percent from 0, fully open, to 10000, fully
//! closed; Home Assistant counts percent from 0, closed, to 100, open.
use crate::catalog::{AttributeValue, HaStateValue};
use crate::matter::error_code::ErrorCode;
use crate::text::{parse_u64, str_eq, to_lower, trim};
use vstd::prelude::*;

verus! {

/// `ConfigStatus`: the covering is online.
pub const CONFIG_OPERATIONAL: u8 = 0x01;

/// `ConfigStatus`: the lift knows its position.
pub const CONFIG_LIFT_POSITION_AWARE: u8 = 0x08;

/// `Mode`: the motor direction is reversed.
pub const MODE_MOTOR_DIRECTION_REVERSED: u8 = 0x01;

/// `Mode`: the covering is calibrating.
pub const MODE_CALIBRATION_MODE: u8 = 0x02;

/// `Mode`: the LED gives feedback.
pub const MODE_LED_FEEDBACK: u8 = 0x08;

/// Home Assistant position to hundredths of a percent; what is above 100 counts as 100.
pub open spec fn percent100ths_of(ha_position: int) -> int {
    if ha_position > 100 {
        0
    } else {
        (100 - ha_position) * 100
    }
}

/// Hundredths of a percent to Home Assistant position, rounded down; what is above 10000
/// counts as fully closed.
pub open spec fn ha_position_of(percent100ths: int) -> int {
    if percent100ths > 10000 {
        0
    } else {
        (10000 - percent100ths) / 100
    }
}

/// Home Assistant position to hundredths of a percent.
pub fn ha_position_to_percent100ths(ha_position: u8) -> (r: u16)
    ensures
        r == percent100ths_of(ha_position as int),
        r <= 10000,
{
    let ha: u16 = if ha_position > 100 {
        100
    } else {
        ha_position as u16
    };
    (100 - ha) * 100
}

/// Hundredths of a percent to Home Assistant position.
pub fn percent100ths_to_ha_position(percent100ths: u16) -> (r: u8)
    ensures
        r == ha_position_of(percent100ths as int),
        r <= 100,
{
    let p: u16 = if percent100ths > 10000 {
        10000
    } else {
        percent100ths
    };
    ((10000 - p) / 100) as u8
}

/// Converting a position of Home Assistant to Matter and back gives it again.
pub proof fn law_position_round_trip(ha_position: int)
    requires
        0 <= ha_position <= 100,
    ensures
        0 <= percent100ths_of(ha_position) <= 10000,
        ha_position_of(percent100ths_of(ha_position)) == ha_position,
{
}

/// More open in Home Assistant is a smaller number in Matter, and the ends meet.
pub proof fn law_position_order(a: int, b: int)
    requires
        0 <= a < b <= 100,
    ensures
        percent100ths_of(b) < percent100ths_of(a),
        percent100ths_of(0) == 10000,
        percent100ths_of(100) == 0,
{
}

/// Accepts a lift target of at most 10000 hundredths of a percent.
pub fn validate_lift_percent100ths(percent100ths: u16) -> (r: Result<u16, ErrorCode>)
    ensures
        r == (if percent100ths > 10000 {
            Err::<u16, ErrorCode>(ErrorCode::ConstraintError)
        } else {
            Ok(percent100ths)
        }),
{
    if percent100ths > 10000 {
        Err(ErrorCode::ConstraintError)
    } else {
        Ok(percent100ths)
    }
}

/// The configuration status of a position-aware lift that is online.
pub fn config_status() -> (r: u8)
    ensures
        r == CONFIG_OPERATIONAL | CONFIG_LIFT_POSITION_AWARE,
        r == 0x09,
{
    assert(0x01u8 | 0x08u8 == 0x09u8) by (bit_vector);
    CONFIG_OPERATIONAL | CONFIG_LIFT_POSITION_AWARE
}

/// The operational status: twice the same two-bit field, for the whole (bits 0 and 1) and
/// for the lift (bits 2 and 3): 0 stopped, 1 opening, 2 closing.
pub open spec fn operational_bits(position: u8, target: u8, moving: bool) -> u8 {
    if !moving || position == target {
        0
    } else if target > position {
        5
    } else {
        10
    }
}

/// The operational status from position and target in Home Assistant terms.
pub fn operational_status(position: u8, target: u8, moving: bool) -> (r: u8)
    ensures
        r == operational_bits(position, target, moving),
{
    if !moving || position == target {
        return 0;
    }
    let direction: u8 = if target > position {
        1
    } else {
        2
    };
    assert(1u8 | (1u8 << 2u8) == 5u8) by (bit_vector);
    assert(2u8 | (2u8 << 2u8) == 10u8) by (bit_vector);
    direction | (direction << 2u8)
}

/// Kinds of covering.
#[derive(Debug, Clone, Copy, PartialEq, Eq, Structural)]
pub enum CoverType {
    RollerShade,
    Shutter,
}

/// Kinds of end product.
#[derive(Debug, Clone, Copy, PartialEq, Eq, Structural)]
pub enum EndProductType {
    RollerShade,
    RollerShutter,
}

/// The kind of covering: a shutter for a garage, else a roller shade.
pub fn cover_type(is_garage: bool) -> (r: CoverType)
    ensures
        r == (if is_garage {
            CoverType::Shutter
        } else {
            CoverType::RollerShade
        }),
{
    if is_garage {
        CoverType::Shutter
    } else {
        CoverType::RollerShade
    }
}

/// The kind of end product: a roller shutter for a garage, else a roller shade.
pub fn end_product_type(is_garage: bool) -> (r: EndProductType)
    ensures
        r == (if is_garage {
            EndProductType::RollerShutter
        } else {
            EndProductType::RollerShade
        }),
{
    if is_garage {
        EndProductType::RollerShutter
    } else {
        EndProductType::RollerShade
    }
}

/// The `Mode` attribute, always empty: no mode is stored.
pub fn mode() -> (r: u8)
    ensures
        r == 0,
{
    0
}

/// Accepts a write of the empty mode and refuses every other, which would be discarded.
pub fn accept_mode_write(value: u8) -> (r: Result<(), ErrorCode>)
    ensures
        r == (if value == 0 {
            Ok::<(), ErrorCode>(())
        } else {
            Err(ErrorCode::ConstraintError)
        }),
{
    if value == 0 {
        Ok(())
    } else {
        Err(ErrorCode::ConstraintError)
    }
}

/// Motion of a cover.
#[derive(Debug, Clone, Copy, PartialEq, Eq, Structural)]
pub enum CoverMotion {
    Stopped,
    Opening,
    Closing,
}

/// What an entity state says of a cover.
#[derive(Debug, Clone, Copy, PartialEq, Eq, Structural)]
pub struct CoverHaState {
    /// Position from 0 to 100, where it is known.
    pub position: Option<u8>,
    pub motion: CoverMotion,
}

/// The value of the named attribute.
pub open spec fn attribute(
    attributes: Seq<(String, AttributeValue)>,
    name: Seq<char>,
) -> Option<AttributeValue>
    decreases attributes.len(),
{
    if attributes.len() == 0 {
        None
    } else if attributes[0].0@ == name {
        Some(attributes[0].1)
    } else {
        attribute(attributes.drop_first(), name)
    }
}

/// The whole number from zero up that an attribute value stands for: numbers with their
/// fraction cut off and negative ones as zero, and text that spells a whole number.
pub open spec fn attribute_number(value: AttributeValue) -> Option<u64> {
    match value {
        AttributeValue::Unsigned(n) => Some(n),
        AttributeValue::Negative(_) => Some(0),
        AttributeValue::Real { text, whole } => Some(whole),
        AttributeValue::Text(t) => crate::text::parsed_u64(t@),
        _ => None,
    }
}

/// Motion as the state text tells it.
pub open spec fn motion_of(state: Seq<char>) -> CoverMotion {
    let s = crate::text::lowercased(crate::text::trimmed(state));
    if s == "opening"@ {
        CoverMotion::Opening
    } else if s == "closing"@ {
        CoverMotion::Closing
    } else {
        CoverMotion::Stopped
    }
}

/// Position of a cover: its `current_position`, at most 100, where that is a number, else
/// what the state text tells.
pub open spec fn position_of(value: HaStateValue) -> Option<u8> {
    let s = crate::text::lowercased(crate::text::trimmed(value.state@));
    let number = match attribute(value.attributes@, "current_position"@) {
        Some(v) => attribute_number(v),
        None => None,
    };
    match number {
        Some(n) => Some(
            if n > 100 {
                100
            } else {
                n as u8
            },
        ),
        None => if s == "open"@ {
            Some(100)
        } else if s == "closed"@ {
            Some(0)
        } else {
            None
        },
    }
}

/// The whole number that the named attribute stands for.
fn number_of(attributes: &Vec<(String, AttributeValue)>, name: &str) -> (r: Option<u64>)
    ensures
        r == match attribute(attributes@, name@) {
            Some(v) => attribute_number(v),
            None => None,
        },
{
    assert(attributes@.skip(0) =~= attributes@);
    for i in 0..attributes.len()
        invariant
            attribute(attributes@, name@) == attribute(attributes@.skip(i as int), name@),
    {
        assert(attributes@.skip(i as int)[0] == attributes@[i as int]);
        assert(attributes@.skip(i as int).drop_first() =~= attributes@.skip(i + 1));
        if str_eq(attributes[i].0.as_str(), name) {
            return match &attributes[i].1 {
                AttributeValue::Unsigned(n) => Some(*n),
                AttributeValue::Negative(_) => Some(0),
                AttributeValue::Real { text: _, whole } => Some(*whole),
                AttributeValue::Text(t) => parse_u64(t.as_str()),
                _ => None,
            };
        }
    }
    None
}

/// Reads position and motion of a cover from the state of its primary entity.
pub fn ha_cover_from_state(value: &HaStateValue) -> (r: CoverHaState)
    ensures
        r.position == position_of(*value),
        r.motion == motion_of(value.state@),
        r.position is Some ==> r.position->0 <= 100,
{
    let folded: String = to_lower(trim(value.state.as_str()).as_str());
    let s: &str = folded.as_str();
    let motion: CoverMotion = if str_eq(s, "opening") {
        CoverMotion::Opening
    } else if str_eq(s, "closing") {
        CoverMotion::Closing
    } else {
        CoverMotion::Stopped
    };
    let position: Option<u8> = match number_of(&value.attributes, "current_position") {
        Some(n) => if n > 100 {
            Some(100)
        } else {
            Some(n as u8)
        },
        None => if str_eq(s, "open") {
            Some(100)
        } else if str_eq(s, "closed") {
            Some(0)
        } else {
            None
        },
    };
    CoverHaState { position, motion }
}

/// One percent of Home Assistant is a hundred of Matter, and what is above 100 counts as 100.
pub proof fn law_position_step(ha_position: int)
    requires
        0 <= ha_position,
    ensures
        ha_position < 100 ==> percent100ths_of(ha_position) == percent100ths_of(ha_position + 1)
            + 100,
        ha_position > 100 ==> percent100ths_of(ha_position) == percent100ths_of(100),
{
}

/// A position of Matter is rounded down to a whole percent of openness, and what is above
/// 10000 counts as 10000.
pub proof fn law_position_rounding(percent100ths: int)
    requires
        0 <= percent100ths,
    ensures
        percent100ths <= 10000 ==> ha_position_of(percent100ths) * 100 <= 10000 - percent100ths
            < ha_position_of(percent100ths) * 100 + 100,
        percent100ths > 10000 ==> ha_position_of(percent100ths) == ha_position_of(10000),
{
}

/// The operational status has the same field twice, of two bits each: 1 exactly where the
/// cover moves towards a more open target, 2 exactly where it moves towards a less open one.
pub proof fn law_operational_status(position: u8, target: u8, moving: bool)
    ensures
        operational_bits(position, target, moving) < 16,
        operational_bits(position, target, moving) % 4 == operational_bits(
            position,
            target,
            moving,
        ) / 4,
        operational_bits(position, target, moving) % 4 == 1 <==> moving && position < target,
        operational_bits(position, target, moving) % 4 == 2 <==> moving && target < position,
        operational_bits(position, target, moving) % 4 != 3,
{
}

/// An attribute has the value of the first entry of its name, and none without such an entry.
pub proof fn law_attribute(attributes: Seq<(String, AttributeValue)>, name: Seq<char>, i: int)
    requires
        0 <= i <= attributes.len(),
        forall|j: int| 0 <= j < i ==> (#[trigger] attributes[j]).0@ != name,
        i < attributes.len() ==> attributes[i].0@ == name,
    ensures
        i < attributes.len() ==> attribute(attributes, name) == Some(attributes[i].1),
        i == attributes.len() ==> attribute(attributes, name) is None,
    decreases i,
{
    if i > 0 {
        let rest = attributes.drop_first();
        assert(attributes[0].0@ != name);
        assert forall|j: int| 0 <= j < i - 1 implies (#[trigger] rest[j]).0@ != name by {
            assert(rest[j] == attributes[j + 1]);
        }
        law_attribute(rest, name, i - 1);
    }
}

/// A whole number stands for itself, a negative one for 0, a real one for its whole part, and
/// text for the number that it spells; nothing else stands for a number.
pub proof fn law_attribute_number(n: u64, m: i64, b: bool, t: String)
    ensures
        attribute_number(AttributeValue::Unsigned(n)) == Some(n),
        attribute_number(AttributeValue::Negative(m)) == Some(0u64),
        attribute_number(AttributeValue::Real { text: t, whole: n }) == Some(n),
        attribute_number(AttributeValue::Text(t)) == crate::text::parsed_u64(t@),
        attribute_number(AttributeValue::Null) is None,
        attribute_number(AttributeValue::Bool(b)) is None,
        attribute_number(AttributeValue::Json(t)) is None,
{
}

/// A cover opens or closes where its state says so, and stands still otherwise.
pub proof fn law_motion_words(state: Seq<char>)
    ensures
        ({
            let word = crate::text::lowercased(crate::text::trimmed(state));
            &&& motion_of(state) == CoverMotion::Opening <==> word == "opening"@
            &&& motion_of(state) == CoverMotion::Closing <==> word == "closing"@
            &&& motion_of(state) == CoverMotion::Stopped <==> word != "opening"@ && word
                != "closing"@
        }),
{
    reveal_strlit("opening");
    reveal_strlit("closing");
    assert("opening"@[0] == 'o' && "closing"@[0] == 'c');
}

/// A `current_position` that stands for a number is the position, up to 100; without one, an
/// open cover is at 100, a closed one at 0, and any other nowhere.
pub proof fn law_cover_position(value: HaStateValue)
    ensures
        ({
            let word = crate::text::lowercased(crate::text::trimmed(value.state@));
            let found = attribute(value.attributes@, "current_position"@);
            let told = found is Some && attribute_number(found->0) is Some;
            let n = attribute_number(found->0)->0;
            &&& told && n <= 100 ==> position_of(value) is Some && position_of(value)->0 == n
            &&& told && n > 100 ==> position_of(value) == Some(100u8)
            &&& !told && word == "open"@ ==> position_of(value) == Some(100u8)
            &&& !told && word == "closed"@ ==> position_of(value) == Some(0u8)
            &&& !told && word != "open"@ && word != "closed"@ ==> position_of(value) is None
        }),
{
    reveal_strlit("open");
    reveal_strlit("closed");
    assert("open"@.len() != "closed"@.len());
}

} // verus!
