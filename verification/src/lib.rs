//! STAR randomness web service core.
//!
//! A verified model of the multi-instance epoch/key lifecycle engine
//! behind a PPOPRF randomness server: scheduled epoch rotation with
//! puncturing of past tags, anchor-relative schedule computation,
//! request evaluation contracts, and leader/worker key synchronization.
//! All I/O (HTTP routing, timers, task management) lives outside this
//! crate; the functions here are pure state transitions and queries.

use vstd::prelude::*;
use vstd::string::StringExecFns;

pub mod clock;
pub mod codec;
pub mod config;
pub mod duration;
pub mod handler;
pub mod instance;
pub mod oprf;
pub mod result;
pub mod state;
pub mod update;

verus! {

/// Maximum number of points accepted in a single evaluation request.
pub const MAX_POINTS: usize = 1024;

/// Identifying text served at the root route.
pub fn welcome_message() -> (s: String)
    ensures
        s@ == "STAR randomness server\n"@,
        s@.len() > 0,
{
    proof {
        reveal_strlit("STAR randomness server\n");
    }
    let s: String = String::from_str("STAR randomness server\n");
    s
}

} // verus!
