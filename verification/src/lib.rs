//! Core of an NLP inference service: language resolution, sentence
//! segmentation, backend configuration selection, and the dispatch logic
//! that splits a request into chunks, pairs chunk results back up in
//! order, and folds them into a single all-or-nothing response.
//!
//! The heavyweight model invocations themselves are opaque collaborators;
//! this crate holds the decision and bookkeeping layer around them.

use vstd::prelude::*;

pub mod bridge;
pub mod dispatch;
pub mod error;
pub mod lang;
pub mod registry;
pub mod response;
pub mod segment;
pub mod timefmt;

verus! {

/// Server-level configuration handed to the transport layer.
#[derive(Debug)]
pub struct MainConfig {
    pub server_addr: String,
}

} // verus!
