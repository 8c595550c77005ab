//! Endpoint layout and the cluster and attribute ids that the bridge serves.
use vstd::prelude::*;

verus! {

/// Matter root endpoint.
pub const ROOT_ENDPOINT_ID: u16 = 0;

/// Endpoint of the aggregator; bridged devices start above it.
pub const AGGREGATOR_ENDPOINT_ID: u16 = 1;

/// Matter caps a node label at 32 bytes.
pub const NODE_LABEL_MAX_BYTES: usize = 32;

/// The Descriptor cluster.
pub const DESC_CLUSTER_ID: u32 = 0x001D;

/// The Bridged Device Basic Information cluster.
pub const BRIDGED_INFO_CLUSTER_ID: u32 = 0x0039;

/// The On/Off cluster.
pub const ON_OFF_CLUSTER_ID: u32 = 0x0006;

/// The `OnOff` attribute of the On/Off cluster.
pub const ON_OFF_ATTRIBUTE_ID: u32 = 0x0000;

/// The `NodeLabel` attribute of Bridged Device Basic Information.
pub const NODE_LABEL_ATTRIBUTE_ID: u32 = 0x0005;

} // verus!
