//! Terminal session management.

use vstd::prelude::*;
use std::sync::Arc;
use crate::activations::outcome::concat3;
use crate::types::Session;

verus! {

/// Sessions sub-activation — manages terminal sessions.
pub struct SessionsActivation<B: ?Sized> {
    /// Terminal backend instance shared across all activations
    pub backend: Arc<B>,
}

impl<B: ?Sized> SessionsActivation<B> {
    /// Create a new SessionsActivation with the specified backend
    pub fn new(backend: Arc<B>) -> (a: Self)
        ensures
            a.backend == backend,
    {
        SessionsActivation { backend }
    }
}

/// What is reported after a session was killed.
pub fn killed_message(name: &str) -> (m: String)
    ensures
        m@ == "Killed session: "@ + name@,
{
    let m = concat3("Killed session: ", name, "");
    assert(m@ =~= "Killed session: "@ + name@) by {
        reveal_strlit("");
    }
    m
}

/// The session to record when none is named: the first one listed.
pub fn first_session_name(sessions: &Vec<Session>) -> (r: Option<String>)
    ensures
        sessions@.len() == 0 ==> r.is_none(),
        sessions@.len() > 0 ==> (r matches Some(n) && n@ == sessions@[0].name@),
{
    if sessions.len() == 0 {
        None
    } else {
        Some(sessions[0].name.clone())
    }
}

} // verus!
