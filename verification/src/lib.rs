//! Verified core of the ThatsMatter bridge: the export catalog, the bridged
//! endpoint plane, commissioning material, LAN interface selection and the
//! decisions of the control API.
pub mod catalog;
pub mod config;
pub mod ids;
pub mod ipc;
pub mod matter;
pub mod text;
