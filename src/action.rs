//! What one action invocation can produce, and the values it can place in a
//! run's context.

use vstd::prelude::*;
use crate::entries::Entry;

verus! {

/// A value stored in a run's context, passed between action invocations.
#[derive(Clone, Debug, PartialEq)]
pub enum ContextValue {
    Null,
    Bool(bool),
    Integer(i64),
    Text(String),
}

/// The outcome of one action invocation.
#[derive(Debug)]
pub enum ActionResult {
    /// The action succeeded; these context updates are to be applied.
    Success(Vec<Entry<ContextValue>>),
    /// The action failed in a way the workflow may handle through its
    /// transition rules.
    Recoverable(String),
    /// The action met a state it cannot recover from; the run must fail.
    Fatal { message: String, reason: String },
    /// The action asked for the run to be cancelled.
    Abort(String),
}

} // verus!
