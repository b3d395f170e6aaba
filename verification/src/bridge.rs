//! The blocking-task bridge's foothold in the library: the bounded worker
//! pool, and the one round trip whose payload the library itself
//! computes — the landing endpoint's greeting, pushed through a worker
//! and a single-use delivery channel.
//!
//! The heavyweight inference jobs ride the same pool, but their payloads
//! come from the opaque model providers, so the transport layer runs
//! those round trips and hands the library plain results to collect.

use vstd::prelude::*;
use threadpool::ThreadPool;

verus! {

/// The bounded worker pool that runs blocking jobs off the
/// request-handling path.
#[verifier::external_type_specification]
#[verifier::external_body]
pub struct ExThreadPool(ThreadPool);

/// Relies on threadpool::ThreadPool::new: it panics on a zero worker
/// count, so that count is required away, and otherwise returns a usable
/// pool.
#[verifier::external_body]
pub fn new_worker_pool(workers: usize) -> ThreadPool
    requires
        workers >= 1,
{
    ThreadPool::new(workers)
}

/// Relies on threadpool::ThreadPool::execute, which queues the job for a
/// worker to run, and on std::sync::mpsc's single-use channel, whose
/// receiver yields a value only if the sender sent one. The job sends
/// nothing but the message it was handed, so whatever arrives — if
/// anything arrives at all — is that very message.
#[verifier::external_body]
fn deliver_via_pool(pool: &ThreadPool, msg: String) -> (r: Option<String>)
    ensures
        r matches Some(m) ==> m == msg,
{
    let (tx, rx) = std::sync::mpsc::channel();
    pool.execute(move || {
        let _ = tx.send(msg);
    });
    rx.recv().ok()
}

/// What the landing endpoint greets with.
pub open spec fn welcome_text() -> Seq<char> {
    "Welcome to NLP API!"@
}

/// Fetches the landing greeting through the worker pool: one job, one
/// single-use channel, exactly one delivery. Nothing arrives only if the
/// bridge itself failed, and the caller reports that as an internal
/// fault.
pub fn welcome_message(pool: &ThreadPool) -> (r: Option<String>)
    ensures
        r matches Some(m) ==> m@ == welcome_text(),
{
    let msg = "Welcome to NLP API!".to_owned();
    deliver_via_pool(pool, msg)
}

} // verus!
