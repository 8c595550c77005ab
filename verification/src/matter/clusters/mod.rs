//! Cluster values over the state of a slot.
pub mod boolean_state;
pub mod occupancy;
pub mod window_covering;
