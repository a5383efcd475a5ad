//! The supervisor's lifecycle decisions: prepare the services one by one in
//! dependency order; when a preparation fails, clean up the services already
//! prepared, newest first; otherwise run them all until shutdown or until one
//! fails, then clean up every service in reverse dependency order.
use vstd::prelude::*;

verus! {

/// What the supervisor does next while preparing.
pub enum PrepareStep {
    /// Prepare the service with this index.
    Prepare(usize),
    /// Every service is prepared: start them all, in this order.
    StartRun(Vec<usize>),
}

/// The preparation phase over a prepare order.
pub struct Lifecycle {
    order: Vec<usize>,
    prepared: usize,
}

/// `s` reversed.
pub open spec fn reversed(s: Seq<usize>) -> Seq<usize> {
    Seq::new(s.len(), |i: int| s[s.len() - 1 - i])
}

fn reverse_prefix(v: &Vec<usize>, n: usize) -> (r: Vec<usize>)
    requires
        n <= v@.len(),
    ensures
        r@ == reversed(v@.subrange(0, n as int)),
{
    let mut out: Vec<usize> = Vec::new();
    let mut k: usize = n;
    while k > 0
        invariant
            k <= n <= v@.len(),
            out@.len() == n - k,
            forall|i: int| 0 <= i < n - k ==> #[trigger] out@[i] == v@[n - 1 - i],
        decreases k,
    {
        out.push(v[k - 1]);
        k = k - 1;
    }
    assert(out@ =~= reversed(v@.subrange(0, n as int)));
    out
}

impl Lifecycle {
    /// The prepare order.
    pub closed spec fn order_spec(&self) -> Seq<usize> {
        self.order@
    }

    /// The services prepared so far: a prefix of the order.
    pub closed spec fn prepared_spec(&self) -> Seq<usize> {
        self.order@.subrange(0, self.prepared as int)
    }

    #[verifier::type_invariant]
    closed spec fn inv(self) -> bool {
        self.prepared <= self.order@.len()
    }

    /// The start of preparation over `order` (a prepare order, dependencies first).
    pub fn new(order: Vec<usize>) -> (l: Self)
        ensures
            l.order_spec() == order@,
            l.prepared_spec() == Seq::<usize>::empty(),
    {
        let l = Lifecycle { order, prepared: 0 };
        assert(l.prepared_spec() =~= Seq::<usize>::empty());
        l
    }

    /// The next step: prepare the first service not yet prepared, or start the run.
    pub fn step(&self) -> (s: PrepareStep)
        ensures
            match s {
                PrepareStep::Prepare(i) => self.prepared_spec().len() < self.order_spec().len() && i
                    == self.order_spec()[self.prepared_spec().len() as int],
                PrepareStep::StartRun(all) => self.prepared_spec().len() == self.order_spec().len() && all@
                    == self.order_spec(),
            },
    {
        proof {
            use_type_invariant(self);
        }
        if self.prepared < self.order.len() {
            PrepareStep::Prepare(self.order[self.prepared])
        } else {
            PrepareStep::StartRun(self.order.clone())
        }
    }

    /// The outcome of preparing the next service. On success it counts as
    /// prepared (`None`); on failure the answer is the services to clean up:
    /// those prepared before it, newest first.
    pub fn prepared(&mut self, ok: bool) -> (cleanup: Option<Vec<usize>>)
        requires
            old(self).prepared_spec().len() < old(self).order_spec().len(),
        ensures
            final(self).order_spec() == old(self).order_spec(),
            ok ==> cleanup is None && final(self).prepared_spec() == old(self).order_spec().subrange(
                0,
                old(self).prepared_spec().len() + 1 as int,
            ),
            !ok ==> (cleanup matches Some(c) && c@ == reversed(old(self).prepared_spec())),
            !ok ==> final(self).prepared_spec() == old(self).prepared_spec(),
    {
        proof {
            use_type_invariant(&*self);
        }
        assert(self.prepared_spec().len() == self.prepared);
        if ok {
            if self.prepared < self.order.len() {
                self.prepared = self.prepared + 1;
            }
            None
        } else {
            Some(reverse_prefix(&self.order, self.prepared))
        }
    }

    /// The final cleanup after the run: every service, in reverse prepare order.
    pub fn final_cleanup(&self) -> (r: Vec<usize>)
        ensures
            r@ == reversed(self.order_spec()),
    {
        let r = reverse_prefix(&self.order, self.order.len());
        assert(self.order@.subrange(0, self.order@.len() as int) =~= self.order@);
        r
    }
}

/// What ended the wait of a running supervisor, or what it saw.
#[derive(Clone, Copy, Debug, PartialEq, Eq, Structural)]
pub enum RunEvent {
    /// The shutdown signal fired.
    Shutdown,
    /// Every run task has exited.
    AllExited,
    /// One run task returned normally (the service ended by itself).
    Exited,
    /// One run task returned an error.
    Failed,
    /// One run task panicked.
    Panicked,
}

/// What the supervisor does about it.
#[derive(Clone, Copy, Debug, PartialEq, Eq, Structural)]
pub enum RunDecision {
    /// Keep waiting for the others.
    Wait,
    /// Stop: shut everything down, clean up, and return success.
    StopOk,
    /// Stop, clean up, and return the task's error.
    StopWithError,
    /// Stop, clean up, and return an internal error for the panic.
    StopWithPanic,
}

/// The run-phase decision: a service ending by itself is no reason to stop;
/// shutdown or the end of every task stops cleanly; a failure or a panic stops
/// with an error.
pub fn on_run_event(e: RunEvent) -> (d: RunDecision)
    ensures
        d == match e {
            RunEvent::Shutdown => RunDecision::StopOk,
            RunEvent::AllExited => RunDecision::StopOk,
            RunEvent::Exited => RunDecision::Wait,
            RunEvent::Failed => RunDecision::StopWithError,
            RunEvent::Panicked => RunDecision::StopWithPanic,
        },
{
    match e {
        RunEvent::Shutdown | RunEvent::AllExited => RunDecision::StopOk,
        RunEvent::Exited => RunDecision::Wait,
        RunEvent::Failed => RunDecision::StopWithError,
        RunEvent::Panicked => RunDecision::StopWithPanic,
    }
}

/// Cleaning up reverses preparing: the services cleaned up after a failed
/// preparation are exactly those prepared, each once, newest first.
pub proof fn law_cleanup_reverses_prepare(prepared: Seq<usize>)
    ensures
        reversed(prepared).len() == prepared.len(),
        forall|i: int| 0 <= i < prepared.len() ==> reversed(prepared)[i] == prepared[prepared.len() - 1 - i],
        reversed(reversed(prepared)) == prepared,
{
    assert(reversed(reversed(prepared)) =~= prepared);
}

} // verus!
