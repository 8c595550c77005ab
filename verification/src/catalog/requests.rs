//! Request bodies, and what the data directory holds.
use super::model::{DeviceType, Export};
use std::collections::BTreeMap;
use vstd::prelude::*;

verus! {

/// Body of a create request; the bridge assigns the identity when it is missing.
#[derive(Debug)]
pub struct CreateExport {
    pub export_id: Option<u128>,
    pub name: String,
    pub type_: DeviceType,
    pub primary_entity_id: String,
    pub linked: BTreeMap<String, String>,
    pub area_id: Option<String>,
    pub enabled: bool,
}

/// Whether a create request that does not say so enables its export.
pub fn default_enabled() -> (r: bool)
    ensures
        r,
{
    true
}

/// Body of a patch request: what is `Some` is changed. An area of `Some(None)` clears
/// the area.
#[derive(Debug)]
pub struct PatchExport {
    pub name: Option<String>,
    pub type_: Option<DeviceType>,
    pub primary_entity_id: Option<String>,
    pub linked: Option<BTreeMap<String, String>>,
    pub area_id: Option<Option<String>>,
    pub enabled: Option<bool>,
}

impl Default for PatchExport {
    /// The patch that changes nothing.
    fn default() -> (r: Self)
        ensures
            r.name is None,
            r.type_ is None,
            r.primary_entity_id is None,
            r.linked is None,
            r.area_id is None,
            r.enabled is None,
    {
        PatchExport {
            name: None,
            type_: None,
            primary_entity_id: None,
            linked: None,
            area_id: None,
            enabled: None,
        }
    }
}

/// What the bridge configuration file holds.
#[derive(Debug)]
pub struct PersistedConfig {
    pub bridge_name: String,
    pub next_endpoint: u16,
}

/// What the export file holds.
#[derive(Debug)]
pub struct PersistedExports {
    pub exports: Vec<Export>,
}

} // verus!
