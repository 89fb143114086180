//! Turning fallible outcomes into log lines.
//!
//! Stores and notifications may fail without ever being fatal: the
//! in-memory state stays authoritative and the failure is only logged.
//! This module composes the log line; the surrounding daemon prints it.

use vstd::prelude::*;
use vstd::string::StringExecFns;

verus! {

/// The log line for a fallible outcome: nothing when it succeeded, the
/// message and the error joined by `": "` when it failed.
pub fn log_error(fallible: Result<(), String>, message: &str) -> (r: Option<String>)
    ensures
        (match fallible {
            Ok(()) => r is None,
            Err(e) => r matches Some(m) && m@ == message@ + ": "@ + e@,
        }),
{
    match fallible {
        Ok(()) => None,
        Err(e) => {
            let mut m = String::from_str(message);
            m.append(": ");
            m.append(e.as_str());
            Some(m)
        },
    }
}

} // verus!
