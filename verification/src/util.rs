//! The counter capability the long-running demo workers consume, and
//! the keys those workers count under.

use vstd::prelude::*;
use vstd::string::StringExecFns;

use crate::error::MetricsError;
use crate::text::{dec_digits, push_u64_decimal};

verus! {

/// A counter capability: `inc` adds one to the counter named by `key`.
/// Implementors say through `inc_allowed` when an increment can be
/// accounted for, and through `inc_post` what one increment does.
pub trait Metrics: Sized {
    /// When an increment of `key` can currently be accounted for.
    spec fn inc_allowed(&self, key: &str) -> bool;

    /// What one increment of `key` does: how the new state and the
    /// result relate to the state `pre` before the call.
    spec fn inc_post(&self, pre: Self, key: &str, r: Result<(), MetricsError>) -> bool;

    fn inc(&mut self, key: &str) -> (r: Result<(), MetricsError>)
        requires
            old(self).inc_allowed(key),
        ensures
            final(self).inc_post(*old(self), key, r),
    ;
}

/// The metrics key under which demo worker `idx` accounts its calls.
pub fn worker_key(idx: usize) -> (s: String)
    ensures
        s@ == "call.thread.worker."@ + dec_digits(idx as nat),
{
    let mut s = String::from_str("call.thread.worker.");
    push_u64_decimal(&mut s, idx as u64);
    s
}

/// The metrics key under which a request for `page` is accounted.
pub fn page_key(page: u64) -> (s: String)
    ensures
        s@ == "req.page."@ + dec_digits(page as nat),
{
    let mut s = String::from_str("req.page.");
    push_u64_decimal(&mut s, page);
    s
}

} // verus!
