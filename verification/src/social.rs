//! Social-graph queries: the three account listings, and the pairwise
//! follow check.
//!
//! Each listing is the same record stream over a different route; the follow
//! check is a single relationship probe against a dedicated endpoint, never a
//! scan of the follower lists. The network call itself stays outside; this
//! module fixes the route, resolves the default target, and reads the
//! answer's status code.

use vstd::prelude::*;

use crate::error::TransportError;

verus! {

/// The three account listings, identical in shape, differing in route.
#[derive(Clone, Copy, Debug, PartialEq, Eq, Structural)]
pub enum SocialList {
    /// Accounts that follow the authenticated user.
    Followers,
    /// Accounts the authenticated user follows.
    Following,
    /// Accounts the authenticated user blocks.
    Blocks,
}

/// The API route of a listing, relative to the API root.
pub fn list_route(kind: SocialList) -> (r: &'static str)
    ensures
        kind == SocialList::Followers ==> r@ == "user/followers"@,
        kind == SocialList::Following ==> r@ == "user/following"@,
        kind == SocialList::Blocks ==> r@ == "user/blocks"@,
{
    match kind {
        SocialList::Followers => "user/followers",
        SocialList::Following => "user/following",
        SocialList::Blocks => "user/blocks",
    }
}

/// The login the follow check runs against: the requested target where one
/// was given, else the authenticated user's own login. No pair is
/// special-cased: a follower asking about itself is passed through as is.
pub fn resolve_follow_target(target: Option<String>, own_login: String) -> (r: String)
    ensures
        target is Some ==> r == target->0,
        target is None ==> r == own_login,
{
    match target {
        Some(t) => t,
        None => own_login,
    }
}

/// Reads the forge's answer to the follow-relationship probe: the probe
/// endpoint answers 204 when the follower follows the target and 404 when it
/// does not; anything else is a transport failure.
pub fn interpret_follow_check(status: u16) -> (r: Result<bool, TransportError>)
    ensures
        status == 204 ==> r == Ok::<bool, TransportError>(true),
        status == 404 ==> r == Ok::<bool, TransportError>(false),
        status != 204 && status != 404 ==> r == Err::<bool, TransportError>(
            TransportError::Status(status),
        ),
{
    if status == 204 {
        Ok(true)
    } else if status == 404 {
        Ok(false)
    } else {
        Err(TransportError::Status(status))
    }
}

} // verus!
