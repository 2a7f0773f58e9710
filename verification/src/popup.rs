//! Opening the chooser popup: which popup, whether at startup, and how often
//! to try.

use vstd::prelude::*;
use crate::settings::{ProfileRef, Settings};
use crate::socket::{error_text, transient, Error};
use crate::text::{chars_of, contains, find_exec};

verus! {

/// The popup to open: the chooser, or the chooser starting with the hotkey prompt.
#[derive(Clone, Copy, Debug, PartialEq, Eq, Structural)]
pub enum Entrypoint {
    Chooser,
    Setup,
}

impl Entrypoint {
    pub fn from_setup_flag(setup: bool) -> (e: Entrypoint)
        ensures
            e == if setup { Entrypoint::Setup } else { Entrypoint::Chooser },
    {
        if setup {
            Entrypoint::Setup
        } else {
            Entrypoint::Chooser
        }
    }

    /// The entrypoint's id in the plugin manifest.
    pub fn id(self) -> (s: &'static str)
        ensures
            s@ == match self { Entrypoint::Chooser => "chooser"@, Entrypoint::Setup => "setup"@ },
    {
        match self {
            Entrypoint::Chooser => "chooser",
            Entrypoint::Setup => "setup",
        }
    }
}

/// What to do after one attempt to open the popup.
#[derive(Clone, Copy, Debug, PartialEq, Eq, Structural)]
pub enum Attempt {
    /// The popup is open (or was already).
    Opened,
    /// Give up with this attempt's error.
    Failed,
    /// Wait, then try again.
    Retry,
    /// Wait, then give up with this attempt's error.
    WaitThenFail,
}

/// The decision after attempt number `attempt` (from 1) of at most
/// `max(retries, 1)`: success, or a popup that is already open, ends it;
/// an error that is not transient, or the last numbered attempt, fails at
/// once; any other error waits, then retries while attempts are left.
pub open spec fn attempt_outcome(attempt: u32, retries: u32, outcome: Result<(), Error>) -> Attempt {
    match outcome {
        Ok(_) => Attempt::Opened,
        Err(e) => if contains(error_text(e), "popup already open"@) {
            Attempt::Opened
        } else if !transient(e) || attempt == retries {
            Attempt::Failed
        } else if (attempt as int) < (if retries > 1 { retries as int } else { 1 }) {
            Attempt::Retry
        } else {
            Attempt::WaitThenFail
        },
    }
}

/// Retries transient failures: the server may not be up yet, or a client may
/// not be attached, and the popup only opens from the normal workspace view.
pub fn next_attempt(attempt: u32, retries: u32, outcome: &Result<(), Error>) -> (a: Attempt)
    ensures
        a == attempt_outcome(attempt, retries, *outcome),
        a == Attempt::Retry ==> attempt < retries,
{
    match outcome {
        Ok(_) => Attempt::Opened,
        Err(e) => {
            let text = e.message();
            let tc = chars_of(text.as_str());
            let pat = chars_of("popup already open");
            if find_exec(tc.as_slice(), pat.as_slice(), 0).is_some() {
                return Attempt::Opened;
            }
            if !e.is_transient() || attempt == retries {
                return Attempt::Failed;
            }
            let max = if retries > 1 { retries } else { 1 };
            if attempt < max {
                Attempt::Retry
            } else {
                Attempt::WaitThenFail
            }
        },
    }
}

/// Chrome-style launch chooser: only in the default session, only when saved
/// profiles exist, and only when the settings allow it.
pub fn should_open_on_startup(settings: &Settings, session: &ProfileRef) -> (b: bool)
    ensures
        b == (*session is Default && settings.chooser_on_launch && settings.profiles@.len() > 0),
{
    session.is_default() && settings.chooser_on_launch && settings.profiles.len() > 0
}

} // verus!
