//! The dispatch loop's decisions: when to stop, and what each received event
//! means before it is handed to the router (the bot account it teaches, and
//! whether it is routine enough to log at trace level only).
use vstd::prelude::*;
use crate::event::{Event, Meta};
use crate::ids::Uin;

verus! {

/// What happened in one round of the dispatch loop.
pub enum Incoming<'a> {
    /// The shutdown signal fired (it wins over everything else).
    Shutdown,
    /// A handler task finished.
    Reaped,
    /// The event stream closed.
    Closed,
    /// An event arrived.
    Received(&'a Event),
}

/// What the loop does next.
#[derive(Clone, Copy, Debug, PartialEq, Eq, Structural)]
pub enum DispatchAction {
    /// Leave the receive loop and drain the handlers still running.
    Stop,
    /// Keep receiving.
    Continue,
    /// Dispatch the event in a task of its own: first remember the bot account
    /// that a message names (so mention checks stay right even when the login
    /// query failed), and log its receipt at trace level for heartbeats, at
    /// debug level otherwise.
    Dispatch { self_id: Option<Uin>, trace_only: bool },
}

/// The decision for one round of the dispatch loop.
pub fn dispatch_step(incoming: Incoming) -> (a: DispatchAction)
    ensures
        a == match incoming {
            Incoming::Shutdown => DispatchAction::Stop,
            Incoming::Closed => DispatchAction::Stop,
            Incoming::Reaped => DispatchAction::Continue,
            Incoming::Received(e) => DispatchAction::Dispatch {
                self_id: match *e {
                    Event::Message(m) => Some(m.self_id),
                    _ => None,
                },
                trace_only: *e matches Event::Meta(Meta::Heartbeat { .. }),
            },
        },
{
    match incoming {
        Incoming::Shutdown | Incoming::Closed => DispatchAction::Stop,
        Incoming::Reaped => DispatchAction::Continue,
        Incoming::Received(e) => {
            let self_id = match e {
                Event::Message(m) => Some(m.self_id),
                _ => None,
            };
            let trace_only = match e {
                Event::Meta(Meta::Heartbeat { .. }) => true,
                _ => false,
            };
            DispatchAction::Dispatch { self_id, trace_only }
        },
    }
}

} // verus!
