//! Autostart through a desktop entry exists on Linux only; elsewhere these
//! report it off and do nothing.
use vstd::prelude::*;

verus! {

/// Writing the desktop entry is not available: it fails.
pub fn enable_linux_desktop_autostart() -> (r: bool)
    ensures
        !r,
{
    false
}

/// There is no desktop entry to remove.
pub fn disable_linux_desktop_autostart() {
}

/// There is no desktop entry.
pub fn is_linux_desktop_autostart_enabled() -> (r: bool)
    ensures
        !r,
{
    false
}

} // verus!
