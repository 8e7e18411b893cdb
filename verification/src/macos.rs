//! The macOS sandbox.

use vstd::prelude::*;

verus! {

/// On macOS a native sandbox is always at hand: `sandbox-exec` ships with
/// the system, and Alcoholless is preferred where it is installed.
pub fn is_native_available() -> (b: bool)
    ensures
        b,
{
    true
}

} // verus!
