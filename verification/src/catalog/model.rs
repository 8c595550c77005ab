//! Catalog data as it crosses the control API.
use std::collections::BTreeMap;
use vstd::prelude::*;

verus! {

/// Matter device type keys.
///
/// The everyday "on_off" covers `OnOffSwitch`, `OnOffPlug` and `Outlet`, which are
/// distinct values of the control API.
#[derive(Debug, Clone, Copy, PartialEq, Eq, Hash, Structural)]
pub enum DeviceType {
    Light,
    OnOffSwitch,
    OnOffPlug,
    Outlet,
    Contact,
    Motion,
    Cover,
    Garage,
}

impl DeviceType {
    /// Whether this type primarily exposes on/off control.
    pub open spec fn on_off_capable(self) -> bool {
        ||| self == DeviceType::Light
        ||| self == DeviceType::OnOffSwitch
        ||| self == DeviceType::OnOffPlug
        ||| self == DeviceType::Outlet
    }

    /// Whether this type primarily exposes on/off control.
    pub fn is_on_off_capable(self) -> (r: bool)
        ensures
            r == self.on_off_capable(),
    {
        matches!(
            self,
            DeviceType::Light | DeviceType::OnOffSwitch | DeviceType::OnOffPlug | DeviceType::Outlet
        )
    }
}

/// Optional linked entity role keys.
#[derive(Debug, Clone, Copy, PartialEq, Eq, Hash, Structural)]
pub enum LinkedRole {
    Battery,
    Brightness,
    Position,
}

/// One curated export: a device as controllers see it.
#[derive(Debug, PartialEq, Eq)]
pub struct Export {
    /// Stable export identity, never the entity id of Home Assistant.
    pub export_id: u128,
    /// Advertised name.
    pub name: String,
    /// Device type key.
    pub type_: DeviceType,
    /// Primary entity behind this export.
    pub primary_entity_id: String,
    /// Role to entity id.
    pub linked: BTreeMap<String, String>,
    /// Area override.
    pub area_id: Option<String>,
    /// Soft enable or disable without deleting the configuration.
    pub enabled: bool,
    /// Endpoint id assigned by the bridge, absent until assigned.
    pub endpoint_id: Option<u16>,
}

/// What an [`Export`] holds, as mathematical values.
#[verifier::ext_equal]
pub struct ExportView {
    pub export_id: u128,
    pub name: Seq<char>,
    pub type_: DeviceType,
    pub primary_entity_id: Seq<char>,
    pub linked: Map<String, String>,
    pub area_id: Option<Seq<char>>,
    pub enabled: bool,
    pub endpoint_id: Option<u16>,
}

/// The text of an optional string.
pub open spec fn opt_text(s: Option<String>) -> Option<Seq<char>> {
    match s {
        Some(t) => Some(t@),
        None => None,
    }
}

impl View for Export {
    type V = ExportView;

    open spec fn view(&self) -> ExportView {
        ExportView {
            export_id: self.export_id,
            name: self.name@,
            type_: self.type_,
            primary_entity_id: self.primary_entity_id@,
            linked: self.linked@,
            area_id: opt_text(self.area_id),
            enabled: self.enabled,
            endpoint_id: self.endpoint_id,
        }
    }
}

/// Copies an optional string.
pub fn clone_text(s: &Option<String>) -> (r: Option<String>)
    ensures
        opt_text(r) == opt_text(*s),
{
    match s {
        Some(t) => Some(t.clone()),
        None => None,
    }
}

impl Clone for Export {
    fn clone(&self) -> (r: Self)
        ensures
            r@ == self@,
    {
        Export {
            export_id: self.export_id,
            name: self.name.clone(),
            type_: self.type_,
            primary_entity_id: self.primary_entity_id.clone(),
            linked: self.linked.clone(),
            area_id: clone_text(&self.area_id),
            enabled: self.enabled,
            endpoint_id: self.endpoint_id,
        }
    }
}

/// The views of a sequence of exports.
pub open spec fn export_views(s: Seq<Export>) -> Seq<ExportView> {
    s.map_values(|e: Export| e@)
}

/// Full catalog snapshot.
#[derive(Debug, PartialEq, Eq)]
pub struct CatalogSnapshot {
    pub bridge_name: String,
    pub exports: Vec<Export>,
}

/// Pairing material as shown to the user.
#[derive(Debug, PartialEq, Eq)]
pub struct PairingMaterial {
    /// Manual setup code.
    pub setup_code: String,
    /// QR payload for rendering.
    pub qr_payload: String,
    pub discriminator: u32,
    pub passcode: u32,
}

/// What a [`PairingMaterial`] holds.
#[verifier::ext_equal]
pub struct PairingView {
    pub setup_code: Seq<char>,
    pub qr_payload: Seq<char>,
    pub discriminator: u32,
    pub passcode: u32,
}

impl View for PairingMaterial {
    type V = PairingView;

    open spec fn view(&self) -> PairingView {
        PairingView {
            setup_code: self.setup_code@,
            qr_payload: self.qr_payload@,
            discriminator: self.discriminator,
            passcode: self.passcode,
        }
    }
}

impl Clone for PairingMaterial {
    fn clone(&self) -> (r: Self)
        ensures
            r@ == self@,
    {
        PairingMaterial {
            setup_code: self.setup_code.clone(),
            qr_payload: self.qr_payload.clone(),
            discriminator: self.discriminator,
            passcode: self.passcode,
        }
    }
}

/// The value of one entity attribute.
#[derive(Debug, PartialEq, Eq)]
pub enum AttributeValue {
    Null,
    Bool(bool),
    /// A whole number from zero up.
    Unsigned(u64),
    /// A whole number below zero.
    Negative(i64),
    /// A number written with a fraction or an exponent: its text, and its value with
    /// the fraction cut off, held to the range of `whole`.
    Real { text: String, whole: u64 },
    Text(String),
    /// A list or an object, as JSON text.
    Json(String),
}

/// One entity state of Home Assistant.
#[derive(Debug, PartialEq, Eq)]
pub struct HaStateValue {
    pub entity_id: String,
    pub state: String,
    /// Attributes by name; a name occurs once.
    pub attributes: Vec<(String, AttributeValue)>,
}

impl Clone for AttributeValue {
    fn clone(&self) -> (r: Self)
        ensures
            r == *self,
    {
        match self {
            AttributeValue::Null => AttributeValue::Null,
            AttributeValue::Bool(b) => AttributeValue::Bool(*b),
            AttributeValue::Unsigned(n) => AttributeValue::Unsigned(*n),
            AttributeValue::Negative(n) => AttributeValue::Negative(*n),
            AttributeValue::Real { text, whole } => AttributeValue::Real {
                text: text.clone(),
                whole: *whole,
            },
            AttributeValue::Text(t) => AttributeValue::Text(t.clone()),
            AttributeValue::Json(t) => AttributeValue::Json(t.clone()),
        }
    }
}

/// What a [`HaStateValue`] holds.
#[verifier::ext_equal]
pub struct StateView {
    pub entity_id: Seq<char>,
    pub state: Seq<char>,
    pub attributes: Seq<(String, AttributeValue)>,
}

impl View for HaStateValue {
    type V = StateView;

    open spec fn view(&self) -> StateView {
        StateView {
            entity_id: self.entity_id@,
            state: self.state@,
            attributes: self.attributes@,
        }
    }
}

impl Clone for HaStateValue {
    fn clone(&self) -> (r: Self)
        ensures
            r@ == self@,
    {
        let mut attributes: Vec<(String, AttributeValue)> = Vec::new();
        for i in 0..self.attributes.len()
            invariant
                attributes@ =~= self.attributes@.take(i as int),
        {
            let key: String = self.attributes[i].0.clone();
            let value: AttributeValue = self.attributes[i].1.clone();
            attributes.push((key, value));
        }
        assert(attributes@ =~= self.attributes@);
        HaStateValue { entity_id: self.entity_id.clone(), state: self.state.clone(), attributes }
    }
}

/// Entity states pushed to the bridge.
#[derive(Debug, PartialEq, Eq)]
pub struct HaStateUpdate {
    pub states: Vec<HaStateValue>,
}

/// Result of applying entity states.
#[derive(Debug, Clone, Copy, PartialEq, Eq, Structural)]
pub struct StatePushResult {
    pub applied: u32,
}

/// Kinds of command from a Matter controller.
#[derive(Debug, Clone, Copy, PartialEq, Eq, Hash, Structural)]
pub enum CommandKind {
    OnOff,
    Level,
    CoverPosition,
    CoverOpen,
    CoverClose,
    CoverStop,
}

/// A command waiting for Home Assistant to execute it.
#[derive(Debug, Clone, Copy, PartialEq, Eq, Structural)]
pub struct CommandRequest {
    pub export_id: u128,
    pub kind: CommandKind,
    pub on: Option<bool>,
    pub level: Option<u8>,
    pub position: Option<u8>,
}

} // verus!
