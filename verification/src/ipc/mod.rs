//! Control API: its bodies and the decisions of its handlers.
pub mod handlers;
pub mod types;

pub use types::{
    BridgeStatus, ClosePairingResponse, ErrorBody, HealthResponse, OpenPairingRequest,
    OpenPairingResponse, PendingCommands,
};
