//! The pump of a connected transport: what each frame means for the idle
//! watchdog, the dispatch of payloads, and the end of the connection.
use vstd::prelude::*;

verus! {

/// The next frame of a connected source.
pub enum Frame {
    /// Inbound traffic with its event payloads (possibly none: a ping still
    /// proves the link alive).
    Inbound(Vec<String>),
    /// Not inbound (a self-initiated keepalive tick): does not reset the watchdog.
    Tick,
    /// The connection closed or failed.
    Closed,
}

/// What the pump does next.
#[derive(Clone, Copy, Debug, PartialEq, Eq, Structural)]
pub enum PumpStep {
    /// Shutdown: close the source and end, no reconnect.
    Shutdown,
    /// End and reconnect (closed, or idle for too long).
    Reconnect,
    /// Reset the watchdog and dispatch the payloads in order; stop as soon as
    /// the sink reports closed.
    Dispatch,
    /// Keep looping.
    Continue,
}

/// One round of the pump: shutdown wins, then the idle watchdog, then the
/// frame (`None` when no frame arrived this round).
pub fn pump_step(shutdown: bool, idle_expired: bool, frame: Option<&Frame>) -> (s: PumpStep)
    ensures
        s == if shutdown {
            PumpStep::Shutdown
        } else if idle_expired {
            PumpStep::Reconnect
        } else {
            match frame {
                Some(Frame::Inbound(_)) => PumpStep::Dispatch,
                Some(Frame::Tick) => PumpStep::Continue,
                Some(Frame::Closed) => PumpStep::Reconnect,
                None => PumpStep::Continue,
            }
        },
{
    if shutdown {
        return PumpStep::Shutdown;
    }
    if idle_expired {
        return PumpStep::Reconnect;
    }
    match frame {
        Some(Frame::Inbound(_)) => PumpStep::Dispatch,
        Some(Frame::Tick) => PumpStep::Continue,
        Some(Frame::Closed) => PumpStep::Reconnect,
        None => PumpStep::Continue,
    }
}

} // verus!
