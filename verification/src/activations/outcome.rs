//! Turning a backend's answer into the event an activation streams back.

use vstd::prelude::*;
use crate::backend::{backend_error_text, BackendError};
use crate::text::{dec, push_dec, string_from};
use crate::types::LocusEvent;

verus! {

/// The event for a failed request: its error's message.
pub fn error_event(e: &BackendError) -> (ev: LocusEvent)
    ensures
        ev matches LocusEvent::Error { message } && message@ == backend_error_text(*e),
{
    LocusEvent::Error { message: e.message() }
}

/// The event for a request that returns nothing: `message` when it
/// succeeded, its error otherwise.
pub fn outcome_event(r: &Result<(), BackendError>, message: String) -> (ev: LocusEvent)
    ensures
        match r {
            Ok(()) => ev matches LocusEvent::Success { message: m } && m@ == message@,
            Err(e) => ev matches LocusEvent::Error { message: m } && m@ == backend_error_text(*e),
        },
{
    match r {
        Ok(()) => LocusEvent::Success { message },
        Err(e) => error_event(e),
    }
}

/// `prefix` followed by the decimal `n`.
pub fn text_with_number(prefix: &str, n: u32) -> (s: String)
    ensures
        s@ == prefix@ + dec(n as nat),
{
    let mut s = string_from(prefix);
    push_dec(&mut s, n as u64);
    s
}

/// `a`, then `b`, then `c`.
pub fn concat3(a: &str, b: &str, c: &str) -> (s: String)
    ensures
        s@ == a@ + b@ + c@,
{
    let mut s = string_from(a);
    s.append(b);
    s.append(c);
    s
}

} // verus!
