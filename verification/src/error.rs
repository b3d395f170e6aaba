//! The uniform error contract of the dispatch layer.
//!
//! Malformed parameters never reach this module: language codes, model
//! names and keyword parameters all fall back to defaults. The only
//! failures that propagate are those of the backend itself — a model that
//! cannot be built, an inference call that fails — and the loss of a
//! result's delivery channel.

use vstd::prelude::*;

verus! {

/// A failure reported by an opaque model backend, or by the delivery of
/// its result.
#[derive(Debug, Clone)]
pub enum BackendError {
    /// The backend could not construct or load its model.
    ModelLoad(String),
    /// The backend's inference call itself failed.
    Inference(String),
    /// The worker's single-use delivery channel was abandoned before a
    /// value arrived.
    Delivery,
}

impl BackendError {
    /// A human-readable account of the failure, carried into the failed
    /// response body.
    pub fn detail(&self) -> (r: String)
        ensures
            r@ == self.detail_spec(),
    {
        match self {
            BackendError::ModelLoad(msg) => msg.clone(),
            BackendError::Inference(msg) => msg.clone(),
            BackendError::Delivery => {
                let s = "result delivery channel closed";
                s.to_owned()
            },
        }
    }

    /// What [`BackendError::detail`] returns.
    pub open spec fn detail_spec(&self) -> Seq<char> {
        match self {
            BackendError::ModelLoad(msg) => msg@,
            BackendError::Inference(msg) => msg@,
            BackendError::Delivery => "result delivery channel closed"@,
        }
    }
}

/// The status carried by every multi-result response: the literal `"OK"`
/// on success, the literal `"Failed"` otherwise.
#[derive(Debug, Clone, Copy, PartialEq, Eq, Structural)]
pub enum Status {
    Succeeded,
    Failed,
}

impl Status {
    /// The literal wire value of this status.
    pub fn text(&self) -> (r: String)
        ensures
            r@ == self.text_spec(),
    {
        match self {
            Status::Succeeded => {
                let s = "OK";
                s.to_owned()
            },
            Status::Failed => {
                let s = "Failed";
                s.to_owned()
            },
        }
    }

    /// What [`Status::text`] returns.
    pub open spec fn text_spec(&self) -> Seq<char> {
        match self {
            Status::Succeeded => "OK"@,
            Status::Failed => "Failed"@,
        }
    }
}

} // verus!
