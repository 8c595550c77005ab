//! Bodies of the control API.
use crate::catalog::CommandRequest;
use crate::matter::backend::PAIRING_TIMEOUT_DEFAULT_SECS;
use vstd::prelude::*;

verus! {

/// Body of `GET /health`.
#[derive(Debug, PartialEq, Eq)]
pub struct HealthResponse {
    pub ok: bool,
    pub version: String,
}

/// Body of `GET /status`.
#[derive(Debug, PartialEq, Eq)]
pub struct BridgeStatus {
    pub bridge_name: String,
    pub running: bool,
    pub matter_backend: String,
    pub pairing_open: bool,
    pub commissioned_fabrics: u8,
    pub export_count: u32,
    pub enabled_export_count: u32,
    pub error: Option<String>,
}

/// Optional body of `POST /pairing/open`.
#[derive(Debug, Clone, Copy, PartialEq, Eq, Structural)]
pub struct OpenPairingRequest {
    pub timeout_secs: u16,
}

/// The timeout of a request that names none.
pub fn default_pairing_timeout() -> (r: u16)
    ensures
        r == PAIRING_TIMEOUT_DEFAULT_SECS,
{
    PAIRING_TIMEOUT_DEFAULT_SECS
}

impl Default for OpenPairingRequest {
    /// The request of an empty body.
    fn default() -> (r: Self)
        ensures
            r.timeout_secs == PAIRING_TIMEOUT_DEFAULT_SECS,
    {
        OpenPairingRequest { timeout_secs: default_pairing_timeout() }
    }
}

/// Answer to `POST /pairing/open`.
#[derive(Debug, Clone, Copy, PartialEq, Eq, Structural)]
pub struct OpenPairingResponse {
    pub pairing_open: bool,
    pub timeout_secs: u16,
}

/// Answer to `POST /pairing/close`.
#[derive(Debug, Clone, Copy, PartialEq, Eq, Structural)]
pub struct ClosePairingResponse {
    pub pairing_open: bool,
}

/// Body of a refusal.
#[derive(Debug, PartialEq, Eq)]
pub struct ErrorBody {
    pub error: String,
    pub message: String,
}

/// Body of `GET /commands`.
#[derive(Debug, PartialEq, Eq)]
pub struct PendingCommands {
    pub commands: Vec<CommandRequest>,
}

} // verus!
