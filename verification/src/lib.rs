//! A minimal self-publishing engine's core: it keeps a durable
//! metadata store and a regenerable rendered artifact consistent,
//! validates untrusted media uploads by sniffing their bytes, and
//! enforces the time-boxed self-service deletion window.

pub mod codec;
pub mod errors;
pub mod manager;
pub mod media;
pub mod pages;
pub mod record;
pub mod render;
pub mod store;

use vstd::prelude::*;

verus! {

/// Number of seconds after creation during which the submitter may
/// delete their own post.
pub open spec fn self_service_window() -> int {
    120
}

/// A self-service mutation is authorized while no more than the window
/// has elapsed since the record was created.
pub open spec fn self_service_authorized(created_at: int, now: int) -> bool {
    now - created_at <= self_service_window()
}

/// Decides whether the submitter may still delete a post created at
/// `created_at`, judged at time `now` (both in seconds).
pub fn authorized_self_service(created_at: i64, now: i64) -> (r: bool)
    requires
        0 <= created_at,
        0 <= now,
    ensures
        r == self_service_authorized(created_at as int, now as int),
{
    now - created_at <= 120
}

} // verus!
