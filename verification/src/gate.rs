//! Authorization gate in front of the shared directory tree.

use vstd::prelude::*;

verus! {

/// A command asked for the shared root while shared access was not
/// granted.
#[derive(Clone, Copy, Debug, PartialEq, Eq, Structural)]
pub struct PermissionDenied;

/// Whether a command may proceed: one on the private root always, one on the
/// shared root only while shared access is granted.
pub open spec fn permitted(is_shared: bool, access_flag: bool) -> bool {
    is_shared ==> access_flag
}

/// Decides whether a command may touch the tree it asks for.
pub fn check(is_shared: bool, access_flag: bool) -> (r: Result<(), PermissionDenied>)
    ensures
        r is Ok <==> permitted(is_shared, access_flag),
{
    if is_shared && !access_flag {
        Err(PermissionDenied)
    } else {
        Ok(())
    }
}

} // verus!
