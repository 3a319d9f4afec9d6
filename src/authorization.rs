//! Ownership checks on resources keyed by a user identifier.

use vstd::prelude::*;

verus! {

/// The one message of a refused ownership check. It tells nothing of the resource,
/// not even whether it exists.
pub const UNAUTHORIZED_ERROR: &'static str = "Unauthorized: You do not own this resource";

/// Whether the caller's user identifier is the owner's.
pub fn is_owner_by_user_id(owner_user_id: &str, caller_user_id: &str) -> (r: bool)
    ensures
        r == (owner_user_id@ == caller_user_id@),
{
    owner_user_id.to_owned() == caller_user_id.to_owned()
}

/// Succeeds when the caller's user identifier is the owner's; otherwise fails with
/// `UNAUTHORIZED_ERROR`.
pub fn require_owner_by_user_id(owner_user_id: &str, caller_user_id: &str) -> (r: Result<
    (),
    String,
>)
    ensures
        r is Ok <==> owner_user_id@ == caller_user_id@,
        r is Err ==> r->Err_0@ == UNAUTHORIZED_ERROR@,
{
    if !is_owner_by_user_id(owner_user_id, caller_user_id) {
        return Err(UNAUTHORIZED_ERROR.to_owned());
    }
    Ok(())
}

} // verus!
