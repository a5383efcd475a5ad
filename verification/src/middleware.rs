//! Onion middleware: the propagation verdict of a layer.
use vstd::prelude::*;

verus! {

/// Whether an event keeps propagating through the middleware chain.
#[derive(Clone, Copy, PartialEq, Eq, Debug, Structural)]
pub enum Flow {
    Continue,
    /// Swallow the event: it goes no further.
    Stop,
}

} // verus!
