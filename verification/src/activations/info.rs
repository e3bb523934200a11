//! Backend status and layout queries.

use vstd::prelude::*;
use std::sync::Arc;
use crate::activations::outcome::concat3;
use crate::types::LocusEvent;

verus! {

/// Info sub-activation — backend status and layout queries.
pub struct InfoActivation<B: ?Sized> {
    /// Terminal backend instance shared across all activations
    pub backend: Arc<B>,
}

impl<B: ?Sized> InfoActivation<B> {
    /// Create a new InfoActivation with the specified backend
    pub fn new(backend: Arc<B>) -> (a: Self)
        ensures
            a.backend == backend,
    {
        InfoActivation { backend }
    }
}

/// The status report for a backend: whether it is available.
pub fn status_event(name: &str, available: bool) -> (ev: LocusEvent)
    ensures
        available ==> (ev matches LocusEvent::Success { message } && message@ == "Backend '"@ + name@ + "' is available"@),
        !available ==> (ev matches LocusEvent::Error { message } && message@ == "Backend '"@ + name@ + "' is not available"@),
{
    if available {
        LocusEvent::Success { message: concat3("Backend '", name, "' is available") }
    } else {
        LocusEvent::Error { message: concat3("Backend '", name, "' is not available") }
    }
}

} // verus!
