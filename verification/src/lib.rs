//! Viewer engagement for a live-stream community: watch-time and balance
//! accrual from chat activity, layered permission resolution and rank
//! selection.
//!
//! Every function here is verified against the contract it carries. The
//! crate performs no I/O: a driver reads the feed, the clock and the entity
//! store, hands plain values in and persists what comes back.

pub mod accrual;
pub mod error;
pub mod feed;
pub mod ingest;
pub mod messages;
pub mod models;
pub mod order;
pub mod permissions;
pub mod precedence;
pub mod query;
pub mod ranks;
pub mod service;
pub mod settings;
pub mod time;
