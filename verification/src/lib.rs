//! ZeptoClaw core logic: verified parsers, state machines and protocol helpers.
use vstd::prelude::*;

pub mod channels;
pub mod text;
pub mod digest;
pub mod json;
pub mod agent;
pub mod audit;
pub mod error;
pub mod auth;
pub mod providers;
pub mod session;
pub mod api;
pub mod bus;
pub mod config;
pub mod keyed;

verus! {

} // verus!
