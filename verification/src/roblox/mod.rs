//! The Roblox web API: what to ask for, and what the answers mean.
//!
//! Endpoint facts worth keeping in mind:
//!   * chat lives at `apis.roblox.com/platform-chat-api/v1`;
//!   * game search is `search-api/omni-search`;
//!   * `games/{id}/servers/Public` is keyed on a place id, and a universe id
//!     gives 400;
//!   * the sub-places come from `develop.roblox.com/v1/universes/{id}/places`,
//!     which needs no sign-in.

use vstd::prelude::*;

pub mod auth;
pub mod avatar;
pub mod chat;
pub mod client;
pub mod discovery;
pub mod error;
pub mod friends;
pub mod games;
pub mod groups;
pub mod models;
pub mod rolimons;
pub mod search;
pub mod thumbnails;
pub mod users;

verus! {

/// The header that carries the token against request forgery. The first
/// state-changing request is refused with 403 and hands a token back; every
/// write retries once with it.
pub const CSRF_HEADER: &'static str = "x-csrf-token";

/// A page size that the paged endpoints accept: they take 10, 25, 50 or 100 and
/// nothing else.
pub open spec fn allowed_limit(n: u32) -> bool {
    n == 10 || n == 25 || n == 50 || n == 100
}

/// `limit` is the page size asked for in place of `requested`: the least allowed
/// one that is enough, or the largest.
pub open spec fn is_page_limit(requested: u32, limit: u32) -> bool {
    &&& allowed_limit(limit)
    &&& requested <= 100 ==> requested <= limit
    &&& forall|other: u32| allowed_limit(other) && requested <= other ==> limit <= other
    &&& requested > 100 ==> limit == 100
}

/// Round a page size up to one the paged endpoints accept; above 100 it is 100.
pub fn page_limit(requested: u32) -> (limit: u32)
    ensures
        is_page_limit(requested, limit),
{
    if requested <= 10 {
        10
    } else if requested <= 25 {
        25
    } else if requested <= 50 {
        50
    } else {
        100
    }
}

/// A page size that is allowed already is left alone, so rounding twice is
/// rounding once.
pub proof fn law_allowed_limits_are_kept(requested: u32, limit: u32)
    requires
        allowed_limit(requested),
        is_page_limit(requested, limit),
    ensures
        limit == requested,
{
}

/// What is asked for of a page: 10 at least, 100 at most, and the next of 25, 50
/// and 100 in between.
pub proof fn law_page_sizes(requested: u32, limit: u32)
    requires
        is_page_limit(requested, limit),
    ensures
        requested <= 10 ==> limit == 10,
        10 < requested <= 25 ==> limit == 25,
        25 < requested <= 50 ==> limit == 50,
        50 < requested ==> limit == 100,
{
    assert(allowed_limit(10) && allowed_limit(25) && allowed_limit(50) && allowed_limit(100));
}

} // verus!
