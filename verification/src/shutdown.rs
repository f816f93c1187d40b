//! Request lifecycle coordinator: tracks in-flight requests and the shutdown
//! flag, decides for every arriving request whether it is accepted or
//! rejected at once, and lets in-flight work drain during shutdown.
//!
//! Every transition is one call on a state that the caller holds exclusively.
//! A server shares one state between its request handlers behind a lock, so
//! that the accept/reject decision and the increment happen as one step.

use vstd::prelude::*;

verus! {

/// The status that a rejected request is answered with: service unavailable.
pub const SERVICE_UNAVAILABLE: u16 = 503;

/// The coordinator's state as a mathematical value.
pub struct Lifecycle {
    /// Set once by the shutdown signal, never cleared.
    pub shutting_down: bool,
    /// Requests accepted and not yet completed.
    pub in_flight: nat,
}

/// What can happen to the coordinator.
pub enum Event {
    /// A request arrives.
    Arrive,
    /// An accepted request completes, successfully or not.
    Complete,
    /// The shutdown signal is received.
    Shutdown,
}

/// The three states of the coordinator.
#[derive(Clone, Copy, Debug, PartialEq, Eq, Structural)]
pub enum Phase {
    /// No shutdown was signaled; requests are accepted.
    Accepting,
    /// Shutdown was signaled and requests are still in flight.
    Draining,
    /// Shutdown was signaled and nothing is in flight.
    Drained,
}

/// The state before anything happened.
pub open spec fn initial() -> Lifecycle {
    Lifecycle { shutting_down: false, in_flight: 0 }
}

/// Whether a request arriving in state `s` is accepted.
pub open spec fn accepts(s: Lifecycle) -> bool {
    !s.shutting_down
}

/// Whether everything has drained: shutdown was signaled and nothing is in
/// flight.
pub open spec fn drained(s: Lifecycle) -> bool {
    s.shutting_down && s.in_flight == 0
}

/// The phase of a state.
pub open spec fn phase_of(s: Lifecycle) -> Phase {
    if !s.shutting_down {
        Phase::Accepting
    } else if s.in_flight > 0 {
        Phase::Draining
    } else {
        Phase::Drained
    }
}

/// The state after one event. An arrival during shutdown changes nothing; an
/// accepted arrival counts one up; a completion counts one down.
pub open spec fn step(s: Lifecycle, e: Event) -> Lifecycle {
    match e {
        Event::Arrive => if s.shutting_down {
            s
        } else {
            Lifecycle { shutting_down: false, in_flight: s.in_flight + 1 }
        },
        Event::Complete => Lifecycle {
            shutting_down: s.shutting_down,
            in_flight: if s.in_flight > 0 {
                (s.in_flight - 1) as nat
            } else {
                0
            },
        },
        Event::Shutdown => Lifecycle { shutting_down: true, in_flight: s.in_flight },
    }
}

/// The state after a sequence of events, from the initial state.
pub open spec fn run(events: Seq<Event>) -> Lifecycle
    decreases events.len(),
{
    if events.len() == 0 {
        initial()
    } else {
        step(run(events.drop_last()), events.last())
    }
}

/// How many of the arrivals in `events` were accepted.
pub open spec fn accepted_count(events: Seq<Event>) -> nat
    decreases events.len(),
{
    if events.len() == 0 {
        0
    } else {
        let before = events.drop_last();
        accepted_count(before) + if events.last() is Arrive && accepts(run(before)) {
            1nat
        } else {
            0nat
        }
    }
}

/// How many completions `events` holds.
pub open spec fn completed_count(events: Seq<Event>) -> nat
    decreases events.len(),
{
    if events.len() == 0 {
        0
    } else {
        completed_count(events.drop_last()) + if events.last() is Complete {
            1nat
        } else {
            0nat
        }
    }
}

/// Every completion in `events` is that of a request in flight: a request is
/// completed only after it was accepted, and only once.
pub open spec fn completions_matched(events: Seq<Event>) -> bool {
    forall|i: int|
        0 <= i < events.len() && events[i] is Complete ==> (#[trigger] run(
            events.take(i),
        )).in_flight > 0
}

/// A prefix of a matched sequence is matched.
pub proof fn lemma_matched_prefix(events: Seq<Event>, n: int)
    requires
        completions_matched(events),
        0 <= n <= events.len(),
    ensures
        completions_matched(events.take(n)),
{
    let p = events.take(n);
    assert forall|i: int| 0 <= i < p.len() && p[i] is Complete implies (#[trigger] run(
        p.take(i),
    )).in_flight > 0 by {
        assert(p.take(i) =~= events.take(i));
        assert(p[i] == events[i]);
    }
}

/// The counter is the number of accepted requests less the number of
/// completed ones, after any interleaving of arrivals, completions and the
/// shutdown signal in which each accepted request completes at most once. It
/// is never negative.
pub proof fn lemma_counter_balance(events: Seq<Event>)
    requires
        completions_matched(events),
    ensures
        run(events).in_flight + completed_count(events) == accepted_count(events),
    decreases events.len(),
{
    if events.len() > 0 {
        let before = events.drop_last();
        assert(before =~= events.take(events.len() - 1));
        lemma_matched_prefix(events, events.len() - 1);
        lemma_counter_balance(before);
        if events.last() is Complete {
            assert(run(events.take(events.len() - 1)).in_flight > 0);
        }
    }
}

/// When every accepted request has completed, the counter is exactly zero.
pub proof fn lemma_settled_counter_is_zero(events: Seq<Event>)
    requires
        completions_matched(events),
        completed_count(events) == accepted_count(events),
    ensures
        run(events).in_flight == 0,
{
    lemma_counter_balance(events);
}

/// The shutdown flag is monotonic: once it is set after some prefix of the
/// events, it is set after every longer prefix.
pub proof fn lemma_flag_monotonic(events: Seq<Event>, i: int, j: int)
    requires
        0 <= i <= j <= events.len(),
        run(events.take(i)).shutting_down,
    ensures
        run(events.take(j)).shutting_down,
    decreases j - i,
{
    if i < j {
        lemma_flag_monotonic(events, i, j - 1);
        assert(events.take(j).drop_last() =~= events.take(j - 1));
    }
}

/// No request that arrives after the shutdown signal is accepted: it finds
/// the flag set, is answered as unavailable and leaves the counter alone.
pub proof fn lemma_rejected_after_shutdown(events: Seq<Event>, i: int, j: int)
    requires
        0 <= i < j < events.len(),
        events[i] is Shutdown,
        events[j] is Arrive,
    ensures
        !accepts(run(events.take(j))),
        run(events.take(j + 1)) == run(events.take(j)),
{
    assert(events.take(i + 1).drop_last() =~= events.take(i));
    assert(events.take(i + 1).last() == events[i]);
    assert(run(events.take(i + 1)).shutting_down);
    lemma_flag_monotonic(events, i + 1, j);
    assert(events.take(j + 1).drop_last() =~= events.take(j));
    assert(events.take(j + 1).last() == events[j]);
}

/// Shutdown never aborts in-flight work: the signal leaves the counter as
/// it is, and the state is drained at once exactly when nothing is in flight.
pub proof fn lemma_shutdown_keeps_in_flight(s: Lifecycle)
    ensures
        step(s, Event::Shutdown).in_flight == s.in_flight,
        drained(step(s, Event::Shutdown)) <==> s.in_flight == 0,
{
}

/// Drained is final: whatever happens after everything has drained, nothing
/// is accepted and nothing is in flight, so the notification fires once.
pub proof fn lemma_drained_is_final(s: Lifecycle, e: Event)
    requires
        drained(s),
    ensures
        step(s, e) == s,
{
}

/// Shared state for tracking shutdown status and in-flight requests.
#[derive(Clone, Copy, Debug, PartialEq, Eq, Structural)]
pub struct ShutdownState {
    is_shutting_down: bool,
    in_flight_count: usize,
}

impl View for ShutdownState {
    type V = Lifecycle;

    closed spec fn view(&self) -> Lifecycle {
        Lifecycle { shutting_down: self.is_shutting_down, in_flight: self.in_flight_count as nat }
    }
}

impl Default for ShutdownState {
    fn default() -> (s: Self)
        ensures
            s@ == initial(),
    {
        Self::new()
    }
}

impl ShutdownState {
    /// Create a new shutdown state: accepting, with nothing in flight.
    pub fn new() -> (s: Self)
        ensures
            s@ == initial(),
    {
        ShutdownState { is_shutting_down: false, in_flight_count: 0 }
    }

    /// Signal that shutdown has started. In-flight requests are left alone.
    pub fn start_shutdown(&mut self)
        ensures
            final(self)@ == step(old(self)@, Event::Shutdown),
    {
        self.is_shutting_down = true;
    }

    /// Check if shutdown is in progress.
    pub fn is_shutting_down(&self) -> (b: bool)
        ensures
            b == self@.shutting_down,
    {
        self.is_shutting_down
    }

    /// Get the current number of in-flight requests.
    pub fn in_flight_count(&self) -> (n: usize)
        ensures
            n == self@.in_flight,
    {
        self.in_flight_count
    }

    /// Whether shutdown was signaled and every accepted request has completed.
    pub fn is_drained(&self) -> (b: bool)
        ensures
            b == drained(self@),
    {
        self.is_shutting_down && self.in_flight_count == 0
    }

    /// The phase the coordinator is in.
    pub fn phase(&self) -> (p: Phase)
        ensures
            p == phase_of(self@),
    {
        if !self.is_shutting_down {
            Phase::Accepting
        } else if self.in_flight_count > 0 {
            Phase::Draining
        } else {
            Phase::Drained
        }
    }

    /// A request arrives: decides whether it is accepted and, if so, counts
    /// it as in flight, in one step.
    pub fn try_accept(&mut self) -> (accepted: bool)
        requires
            old(self)@.in_flight < usize::MAX,
        ensures
            accepted == accepts(old(self)@),
            final(self)@ == step(old(self)@, Event::Arrive),
    {
        if self.is_shutting_down {
            false
        } else {
            self.in_flight_count = self.in_flight_count + 1;
            true
        }
    }

    /// An accepted request completes. Returns whether this completion
    /// drained the coordinator: the counter went from one to zero while
    /// shutting down.
    pub fn complete(&mut self) -> (now_drained: bool)
        requires
            old(self)@.in_flight > 0,
        ensures
            final(self)@ == step(old(self)@, Event::Complete),
            final(self)@.in_flight == old(self)@.in_flight - 1,
            now_drained == drained(final(self)@),
    {
        self.in_flight_count = self.in_flight_count - 1;
        self.is_shutting_down && self.in_flight_count == 0
    }
}

/// The two arms of a request's future.
#[derive(Clone, Copy, Debug, PartialEq, Eq, Structural)]
pub enum FutureKind {
    /// The request was accepted and runs in the inner handler.
    Inner,
    /// The request was rejected: the response status, until it is handed out.
    Immediate(Option<u16>),
}

/// What polling a request's future gives.
#[derive(Clone, Copy, Debug, PartialEq, Eq, Structural)]
pub enum PollOutcome {
    /// The inner handler has not finished.
    Pending,
    /// The inner handler finished; its result is passed on unchanged.
    InnerReady,
    /// The request was rejected with this status.
    Rejected(u16),
}

/// The future of one request: either the immediate rejection or the proxy of
/// the inner handler's future.
#[derive(Clone, Copy, Debug, PartialEq, Eq, Structural)]
pub struct GracefulShutdownFuture {
    kind: FutureKind,
    inner_done: bool,
}

impl GracefulShutdownFuture {
    /// Which arm the future is.
    pub closed spec fn kind_of(&self) -> FutureKind {
        self.kind
    }

    /// Whether the future has given its result: the inner handler's was
    /// passed on, or the rejection was handed out.
    pub closed spec fn is_settled(&self) -> bool {
        match self.kind {
            FutureKind::Inner => self.inner_done,
            FutureKind::Immediate(status) => status is None,
        }
    }

    /// Whether the future holds a request that counts as in flight.
    pub open spec fn holds_request(&self) -> bool {
        self.kind_of() is Inner && !self.is_settled()
    }

    /// Which arm the future is.
    pub fn kind(&self) -> (k: FutureKind)
        ensures
            k == self.kind_of(),
    {
        self.kind
    }

    /// Whether the future has given its result.
    pub fn settled(&self) -> (b: bool)
        ensures
            b == self.is_settled(),
    {
        match self.kind {
            FutureKind::Inner => self.inner_done,
            FutureKind::Immediate(status) => status.is_none(),
        }
    }

    /// A request arrives at `state`: the accept/reject decision and the
    /// increment happen in this one step. During shutdown the future is the
    /// immediate rejection and the counter stays; otherwise the request is
    /// counted as in flight and the future stands for the inner handler's.
    pub fn begin(state: &mut ShutdownState) -> (future: Self)
        requires
            old(state)@.in_flight < usize::MAX,
        ensures
            final(state)@ == step(old(state)@, Event::Arrive),
            !future.is_settled(),
            future.kind_of() == if accepts(old(state)@) {
                FutureKind::Inner
            } else {
                FutureKind::Immediate(Some(SERVICE_UNAVAILABLE))
            },
    {
        if state.try_accept() {
            GracefulShutdownFuture { kind: FutureKind::Inner, inner_done: false }
        } else {
            GracefulShutdownFuture {
                kind: FutureKind::Immediate(Some(SERVICE_UNAVAILABLE)),
                inner_done: false,
            }
        }
    }

    /// Polls the future. `inner_ready` says whether the inner handler's
    /// future has just completed; it is read only for an accepted request.
    /// The counter goes down exactly when an accepted request completes.
    pub fn poll(&mut self, state: &mut ShutdownState, inner_ready: bool) -> (r: PollOutcome)
        requires
            !old(self).is_settled(),
            old(self).kind_of() is Inner && inner_ready ==> old(state)@.in_flight > 0,
        ensures
            match old(self).kind_of() {
                FutureKind::Inner => if inner_ready {
                    &&& r == PollOutcome::InnerReady
                    &&& final(state)@ == step(old(state)@, Event::Complete)
                    &&& final(state)@.in_flight == old(state)@.in_flight - 1
                    &&& final(self).is_settled()
                    &&& final(self).kind_of() == FutureKind::Inner
                } else {
                    &&& r == PollOutcome::Pending
                    &&& *final(state) == *old(state)
                    &&& *final(self) == *old(self)
                },
                FutureKind::Immediate(status) => {
                    &&& status == Some(r->Rejected_0)
                    &&& r is Rejected
                    &&& *final(state) == *old(state)
                    &&& final(self).is_settled()
                    &&& final(self).kind_of() == FutureKind::Immediate(None)
                },
            },
    {
        match self.kind {
            FutureKind::Inner => {
                if inner_ready {
                    state.complete();
                    self.inner_done = true;
                    PollOutcome::InnerReady
                } else {
                    PollOutcome::Pending
                }
            },
            FutureKind::Immediate(status) => {
                self.kind = FutureKind::Immediate(None);
                match status {
                    Some(code) => PollOutcome::Rejected(code),
                    None => PollOutcome::Pending,
                }
            },
        }
    }
}

/// Layer that adds graceful shutdown to a service.
#[derive(Clone, Copy, Debug)]
pub struct GracefulShutdownLayer {
    state: ShutdownState,
}

impl GracefulShutdownLayer {
    /// The state the layer was made with.
    pub closed spec fn state_of(&self) -> ShutdownState {
        self.state
    }

    /// A layer over the given state.
    pub fn new(state: ShutdownState) -> (layer: Self)
        ensures
            layer.state_of() == state,
    {
        GracefulShutdownLayer { state }
    }

    /// Wraps `inner` into a service that starts from the layer's state.
    pub fn layer<S>(&self, inner: S) -> (service: GracefulShutdownService<S>)
        ensures
            service.state_of() == self.state_of(),
            service.inner_of() == inner,
    {
        GracefulShutdownService { inner, state: self.state }
    }
}

/// Service that handles graceful shutdown around an inner service.
#[derive(Clone, Debug)]
pub struct GracefulShutdownService<S> {
    inner: S,
    state: ShutdownState,
}

impl<S> GracefulShutdownService<S> {
    /// The coordinator state of the service.
    pub closed spec fn state_of(&self) -> ShutdownState {
        self.state
    }

    /// The inner service.
    pub closed spec fn inner_of(&self) -> S {
        self.inner
    }

    /// The coordinator state of the service.
    pub fn state(&self) -> (s: ShutdownState)
        ensures
            s == self.state_of(),
    {
        self.state
    }

    /// The inner service.
    pub fn inner(&self) -> (s: &S)
        ensures
            *s == self.inner_of(),
    {
        &self.inner
    }

    /// Signal that shutdown has started.
    pub fn start_shutdown(&mut self)
        ensures
            final(self).state_of()@ == step(old(self).state_of()@, Event::Shutdown),
            final(self).inner_of() == old(self).inner_of(),
    {
        self.state.start_shutdown();
    }

    /// A request arrives. During shutdown it is answered at once as
    /// unavailable and is not counted; otherwise it is counted as in flight
    /// and is to be handed to the inner service.
    pub fn call(&mut self) -> (future: GracefulShutdownFuture)
        requires
            old(self).state_of()@.in_flight < usize::MAX,
        ensures
            final(self).state_of()@ == step(old(self).state_of()@, Event::Arrive),
            final(self).inner_of() == old(self).inner_of(),
            !future.is_settled(),
            future.kind_of() == if accepts(old(self).state_of()@) {
                FutureKind::Inner
            } else {
                FutureKind::Immediate(Some(SERVICE_UNAVAILABLE))
            },
    {
        GracefulShutdownFuture::begin(&mut self.state)
    }

    /// Polls one of the service's futures against the service's state.
    pub fn poll(&mut self, future: &mut GracefulShutdownFuture, inner_ready: bool) -> (r:
        PollOutcome)
        requires
            !old(future).is_settled(),
            old(future).kind_of() is Inner && inner_ready ==> old(self).state_of()@.in_flight > 0,
        ensures
            final(self).inner_of() == old(self).inner_of(),
            match old(future).kind_of() {
                FutureKind::Inner => if inner_ready {
                    &&& r == PollOutcome::InnerReady
                    &&& final(self).state_of()@ == step(old(self).state_of()@, Event::Complete)
                    &&& final(future).is_settled()
                } else {
                    &&& r == PollOutcome::Pending
                    &&& final(self).state_of() == old(self).state_of()
                    &&& *final(future) == *old(future)
                },
                FutureKind::Immediate(status) => {
                    &&& status == Some(r->Rejected_0)
                    &&& r is Rejected
                    &&& final(self).state_of() == old(self).state_of()
                    &&& final(future).is_settled()
                },
            },
    {
        future.poll(&mut self.state, inner_ready)
    }
}

} // verus!
