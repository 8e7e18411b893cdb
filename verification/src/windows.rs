//! The Windows sandbox.

use vstd::prelude::*;

verus! {

/// On Windows the native sandbox is Windows Sandbox or Sandboxie Plus;
/// whether each is installed is found out by the caller.
pub fn is_native_available(windows_sandbox: bool, sandboxie: bool) -> (b: bool)
    ensures
        b == (windows_sandbox || sandboxie),
{
    windows_sandbox || sandboxie
}

} // verus!
