//! Core of a terminal browser for a cloud provider's resources: the
//! application state machine, pagination, the operation tracker and the
//! transport's retry policy.
use vstd::prelude::*;

pub mod app;
pub mod config;
pub mod derived;
pub mod endpoints;
pub mod fetcher;
pub mod json;
pub mod notification;
pub mod operation;
pub mod pagination;
pub mod registry;
pub mod shell;
pub mod sort;
pub mod startup;
pub mod text;
pub mod transport;

verus! {
} // verus!
