//! Moderation engine for anonymous posts in chat guilds: threshold votes that
//! delete or expose a post, and scheduled member restrictions that are
//! enacted exactly once.
use vstd::prelude::*;

pub mod config;
pub mod enactment;
pub mod expose;
pub mod identity;
pub mod laws;
pub mod ledger;
pub mod schedule;
pub mod tally;
pub mod timeout;
pub mod vote;

pub use vote::{VoteType, DELETE_VOTE_STR, EXPOSE_VOTE_STR};

verus! {

} // verus!
