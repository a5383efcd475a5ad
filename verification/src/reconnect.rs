//! Capped exponential backoff for the reconnect loop, and the loop's decisions:
//! stop on shutdown or on a clean end, otherwise sleep the current backoff (plus
//! jitter) and double it, capped. Durations are milliseconds.
use vstd::prelude::*;

verus! {

/// What one connection attempt asks for.
#[derive(Clone, Copy, Debug, PartialEq, Eq, Structural)]
pub enum Step {
    /// The connection ended cleanly (usually on shutdown): stop reconnecting.
    Stop,
    /// The connection dropped or failed: back off, then reconnect.
    Reconnect,
}

/// Exponential backoff: the current delay, doubled after each use up to `max`.
#[derive(Clone, Copy, Debug, PartialEq, Eq, Structural)]
pub struct Backoff {
    current: u64,
    max: u64,
}

impl Backoff {
    /// The current delay.
    pub closed spec fn current_spec(&self) -> u64 {
        self.current
    }

    /// The cap.
    pub closed spec fn max_spec(&self) -> u64 {
        self.max
    }

    /// A backoff starting at `initial` ms, capped at `max` ms (factor 2).
    pub fn new(initial: u64, max: u64) -> (b: Backoff)
        ensures
            b.current_spec() == initial,
            b.max_spec() == max,
    {
        Backoff { current: initial, max }
    }

    /// The current delay, before jitter.
    pub fn current(&self) -> (d: u64)
        ensures
            d == self.current_spec(),
    {
        self.current
    }

    /// Doubles the delay, capped at `max`.
    pub fn advance(&mut self)
        ensures
            final(self).current_spec() == if 2 * old(self).current_spec() <= old(self).max_spec() {
                2 * old(self).current_spec()
            } else {
                old(self).max_spec() as int
            },
            final(self).max_spec() == old(self).max_spec(),
    {
        // Doubling past the range of u64 is beyond any cap, so the cap is the result.
        self.current = if self.current <= self.max / 2 { self.current * 2 } else if self.current
            <= u64::MAX / 2 && self.current * 2 <= self.max {
            self.current * 2
        } else {
            self.max
        };
    }
}

/// Advancing keeps a delay within its cap, and a delay at the cap stays there.
pub proof fn law_backoff_capped(current: u64, max: u64)
    requires
        current <= max,
    ensures
        (if 2 * current <= max { 2 * current } else { max as int }) <= max,
        current == max ==> (if 2 * current <= max { 2 * current } else { max as int }) == max,
{
}

/// What the reconnect loop does after one attempt.
#[derive(Clone, Copy, Debug, PartialEq, Eq, Structural)]
pub enum After {
    /// Return: shutdown was requested or the attempt ended cleanly.
    Finish,
    /// Sleep this many ms (shutdown still wins during the sleep), then advance
    /// the backoff and reconnect.
    Sleep(u64),
}

/// The decision after one attempt: a clean end or a pending shutdown finishes;
/// otherwise sleep the current backoff plus `jitter` ms (saturating).
pub fn after_attempt(step: Step, shutdown: bool, backoff: &Backoff, jitter: u64) -> (a: After)
    ensures
        a == if step == Step::Stop || shutdown {
            After::Finish
        } else {
            After::Sleep(
                if backoff.current_spec() + jitter <= u64::MAX {
                    (backoff.current_spec() + jitter) as u64
                } else {
                    u64::MAX
                },
            )
        },
{
    match step {
        Step::Stop => After::Finish,
        Step::Reconnect => {
            if shutdown {
                After::Finish
            } else {
                let base = backoff.current();
                let d = if base <= u64::MAX - jitter { base + jitter } else { u64::MAX };
                After::Sleep(d)
            }
        },
    }
}

} // verus!
