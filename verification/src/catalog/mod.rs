//! Export catalog model and store.
pub mod endpoint_ids;
pub mod error;
pub mod laws;
pub mod model;
pub mod request_laws;
pub mod requests;
pub mod rules;
pub mod store;

pub use error::CatalogError;
pub use model::{
    AttributeValue, CatalogSnapshot, CommandKind, CommandRequest, DeviceType, Export, HaStateUpdate,
    HaStateValue, LinkedRole, PairingMaterial, StatePushResult,
};
pub use requests::{CreateExport, PatchExport, PersistedConfig, PersistedExports};
pub use store::CatalogStore;
