//! Merx: a market data handler that pulls market data from cbag and serves it
//! to clients, de-duplicating identical subscriptions.
//!
//! This crate holds the verified core: request validation, the bookkeeping of
//! subscriptions and clients, user and symbol caches, and the construction of
//! upstream endpoints. Network I/O lives outside it.
use vstd::prelude::*;

pub mod auth;
pub mod cached_routes;
pub mod client;
pub mod clock;
pub mod error;
pub mod functions;
pub mod json;
pub mod laws;
pub mod md_handlers;
pub mod routes_config;
pub mod state;
pub mod subscriptions;
pub mod symbols;
pub mod table;
pub mod tasks;
pub mod text;
pub mod upstream;
pub mod urls;
pub mod user;

verus! {

} // verus!
