//! Boolean State cluster (0x0045) for contact sensors.
//!
//! In Matter `true` means closed and `false` open, while contact entities of Home Assistant
//! are `on` when open.
use vstd::prelude::*;

verus! {

/// The `StateValue` attribute for a contact entity that is on (open) or off (closed).
pub fn state_value_from_ha_on(ha_on: bool) -> (r: bool)
    ensures
        r == !ha_on,
{
    !ha_on
}

} // verus!
