//! Cooperative cancellation. The signal itself is a marker kept outside the
//! process (a file); what it takes to act on it is decided here.

use vstd::prelude::*;
use crate::executor::AbortProbe;
use crate::text::concat2;

verus! {

/// Where the abort marker lives, relative to the project directory.
pub const ABORT_MARKER_PATH: &'static str = ".swissarmyhammer/.abort";

/// What happened when a new run tried to remove a stale abort marker.
#[derive(Clone, Debug, PartialEq, Eq)]
pub enum MarkerRemoval {
    /// A marker was there and has been removed.
    Removed,
    /// There was no marker.
    NotFound,
    /// Removing the marker failed for another reason, described here.
    Failed(String),
}

/// The diagnostic a marker removal leaves: none when there was no marker.
pub open spec fn cleanup_note_text(m: MarkerRemoval) -> Option<Seq<char>> {
    match m {
        MarkerRemoval::Removed => Some("Cleaned up existing abort file"@),
        MarkerRemoval::NotFound => None,
        MarkerRemoval::Failed(e) => Some("Failed to clean up abort file: "@ + e@),
    }
}

/// The diagnostic to record for a marker removal, if any.
pub fn cleanup_note(m: &MarkerRemoval) -> (r: Option<String>)
    ensures
        r is None <==> cleanup_note_text(*m) is None,
        r is Some ==> r->Some_0@ == cleanup_note_text(*m)->Some_0,
{
    match m {
        MarkerRemoval::Removed => Some(String::from_str("Cleaned up existing abort file")),
        MarkerRemoval::NotFound => None,
        MarkerRemoval::Failed(e) => Some(concat2("Failed to clean up abort file: ", e.as_str())),
    }
}

/// The message a cancelled run reports for an abort with the given reason.
pub open spec fn abort_message_text(reason: Seq<char>) -> Seq<char> {
    "Workflow aborted: "@ + reason
}

/// The message a cancelled run reports for an abort with the given reason.
pub fn abort_message(reason: &str) -> (r: String)
    ensures
        r@ == abort_message_text(reason@),
{
    concat2("Workflow aborted: ", reason)
}

/// The reason an abort marker gives: its text, or a generic reason when the
/// marker is empty (an empty marker still aborts).
pub fn abort_reason(marker_text: &str) -> (r: String)
    ensures
        marker_text@.len() > 0 ==> r@ == marker_text@,
        marker_text@.len() == 0 ==> r@ == "no reason given"@,
{
    if marker_text.unicode_len() > 0 {
        String::from_str(marker_text)
    } else {
        String::from_str("no reason given")
    }
}

/// An abort signal held in memory: the state of the marker as last seen.
#[derive(Clone, Debug, PartialEq, Eq)]
pub struct AbortSignal {
    pub reason: Option<String>,
}

impl AbortSignal {
    /// A signal that is not raised.
    pub fn new() -> (r: Self)
        ensures
            r.reason is None,
    {
        AbortSignal { reason: None }
    }

    /// Raises the signal with a reason.
    pub fn raise(&mut self, reason: &str)
        ensures
            final(self).reason matches Some(s) && s@ == reason@,
    {
        self.reason = Some(String::from_str(reason));
    }

    /// The reason, when the signal is raised.
    pub fn is_raised(&self) -> (r: Option<String>)
        ensures
            r is None <==> self.reason is None,
            r is Some ==> r->Some_0@ == self.reason->Some_0@,
    {
        match &self.reason {
            None => None,
            Some(s) => Some(s.clone()),
        }
    }

    /// Lowers the signal.
    pub fn clear(&mut self)
        ensures
            final(self).reason is None,
    {
        self.reason = None;
    }
}

impl AbortProbe for AbortSignal {
    fn poll(&mut self) -> Option<String> {
        self.is_raised()
    }
}

} // verus!
