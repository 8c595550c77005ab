//! Matter side of the bridge.
pub mod backend;
pub mod clusters;
pub mod commissioning;
pub mod dev;
pub mod device_types;
pub mod endpoint_choice;
pub mod endpoint_laws;
pub mod error_code;
pub mod export_plane;
pub mod lan_netif;
pub mod layout;
pub mod net_stack;
pub mod netif_laws;
pub mod node_label;
pub mod on_off_laws;
pub mod on_off_map;
pub mod pairing;
pub mod pairing_window;
pub mod plane_laws;
pub mod plane_rules;
pub mod rs_matter_backend;
pub mod slot;
