//! The life of a listener, from its start to the release of its socket.

use vstd::prelude::*;

verus! {

/// Where a listener is in its life.
#[derive(Debug, Clone, Copy, PartialEq, Eq, Structural)]
pub enum Phase {
    /// Created; the socket is not bound yet.
    Starting,
    /// Bound and taking connections.
    Running,
    /// Asked to stop: takes no new connections, finishes the requests at hand.
    ShuttingDown,
    /// The socket is released. Nothing follows.
    Stopped,
}

/// What can happen to a listener.
#[derive(Debug, Clone, Copy, PartialEq, Eq, Structural)]
pub enum Event {
    /// The socket was bound.
    Bound,
    /// The socket could not be bound.
    BindFailed,
    /// Somebody asked for a shutdown, or let go of the listener.
    ShutdownRequested,
    /// The last request at hand is finished.
    Drained,
}

/// What the listener has to do after an event.
#[derive(Debug, Clone, Copy, PartialEq, Eq, Structural)]
pub enum Action {
    /// Nothing.
    Nothing,
    /// Take connections.
    Accept,
    /// Take no more connections, and finish the requests at hand.
    StopAccepting,
    /// Release the socket.
    Release,
}

/// The state of a listener: its phase, and whether a shutdown was asked
/// for before it was running.
#[derive(Debug, Clone, Copy, PartialEq, Eq, Structural)]
pub struct Lifecycle {
    pub phase: Phase,
    pub stop_pending: bool,
}

/// The state after an event, and what there is to do.
pub open spec fn next(state: Lifecycle, event: Event) -> (Lifecycle, Action) {
    match (state.phase, event) {
        (Phase::Starting, Event::Bound) => if state.stop_pending {
            (Lifecycle { phase: Phase::ShuttingDown, stop_pending: false }, Action::StopAccepting)
        } else {
            (Lifecycle { phase: Phase::Running, stop_pending: false }, Action::Accept)
        },
        (Phase::Starting, Event::BindFailed) => (
            Lifecycle { phase: Phase::Stopped, stop_pending: false },
            Action::Nothing,
        ),
        (Phase::Starting, Event::ShutdownRequested) => (
            Lifecycle { phase: Phase::Starting, stop_pending: true },
            Action::Nothing,
        ),
        (Phase::Running, Event::ShutdownRequested) => (
            Lifecycle { phase: Phase::ShuttingDown, stop_pending: false },
            Action::StopAccepting,
        ),
        (Phase::ShuttingDown, Event::Drained) => (
            Lifecycle { phase: Phase::Stopped, stop_pending: false },
            Action::Release,
        ),
        _ => (state, Action::Nothing),
    }
}

/// The state after a run of events.
pub open spec fn after(state: Lifecycle, events: Seq<Event>) -> Lifecycle
    decreases events.len(),
{
    if events.len() == 0 {
        state
    } else {
        next(after(state, events.drop_last()), events.last()).0
    }
}

impl Lifecycle {
    /// A listener that was just created.
    pub fn new() -> (r: Self)
        ensures
            r == (Lifecycle { phase: Phase::Starting, stop_pending: false }),
    {
        Lifecycle { phase: Phase::Starting, stop_pending: false }
    }

    /// Takes an event: moves to the next state and says what there is to do.
    pub fn on_event(&mut self, event: Event) -> (action: Action)
        ensures
            *final(self) == next(*old(self), event).0,
            action == next(*old(self), event).1,
    {
        let (state, action) = match (self.phase, event) {
            (Phase::Starting, Event::Bound) => if self.stop_pending {
                (
                    Lifecycle { phase: Phase::ShuttingDown, stop_pending: false },
                    Action::StopAccepting,
                )
            } else {
                (Lifecycle { phase: Phase::Running, stop_pending: false }, Action::Accept)
            },
            (Phase::Starting, Event::BindFailed) => (
                Lifecycle { phase: Phase::Stopped, stop_pending: false },
                Action::Nothing,
            ),
            (Phase::Starting, Event::ShutdownRequested) => (
                Lifecycle { phase: Phase::Starting, stop_pending: true },
                Action::Nothing,
            ),
            (Phase::Running, Event::ShutdownRequested) => (
                Lifecycle { phase: Phase::ShuttingDown, stop_pending: false },
                Action::StopAccepting,
            ),
            (Phase::ShuttingDown, Event::Drained) => (
                Lifecycle { phase: Phase::Stopped, stop_pending: false },
                Action::Release,
            ),
            _ => (*self, Action::Nothing),
        };
        *self = state;
        action
    }

    /// Asks for a shutdown. May be called at any time and any number of
    /// times.
    pub fn begin_shutdown(&mut self) -> (action: Action)
        ensures
            *final(self) == next(*old(self), Event::ShutdownRequested).0,
            action == next(*old(self), Event::ShutdownRequested).1,
    {
        self.on_event(Event::ShutdownRequested)
    }
}

/// Asking for a shutdown a second time changes nothing and asks nothing of
/// the listener, whatever its state.
pub proof fn lemma_shutdown_is_idempotent(state: Lifecycle)
    ensures
        next(next(state, Event::ShutdownRequested).0, Event::ShutdownRequested) == (
            next(state, Event::ShutdownRequested).0,
            Action::Nothing,
        ),
{
}

/// Asking a stopped listener for a shutdown changes nothing and asks
/// nothing of it.
pub proof fn lemma_shutdown_after_stop(state: Lifecycle)
    requires
        state.phase == Phase::Stopped,
    ensures
        next(state, Event::ShutdownRequested) == (state, Action::Nothing),
{
}

/// A stopped listener stays stopped, whatever happens.
pub proof fn lemma_stopped_is_final(state: Lifecycle, events: Seq<Event>)
    requires
        state.phase == Phase::Stopped,
    ensures
        after(state, events) == state,
    decreases events.len(),
{
    if events.len() > 0 {
        lemma_stopped_is_final(state, events.drop_last());
    }
}

/// A listener whose socket could not be bound is stopped, and was never
/// running.
pub proof fn lemma_bind_failure_stops(state: Lifecycle)
    requires
        state.phase == Phase::Starting,
    ensures
        next(state, Event::BindFailed).0.phase == Phase::Stopped,
        next(state, Event::BindFailed).1 == Action::Nothing,
{
}

/// A listener that is asked to stop does stop once its requests are
/// finished: from `Running`, a shutdown request and then the end of the
/// last request release the socket.
pub proof fn lemma_shutdown_releases(state: Lifecycle)
    requires
        state.phase == Phase::Running,
    ensures
        next(state, Event::ShutdownRequested).1 == Action::StopAccepting,
        next(next(state, Event::ShutdownRequested).0, Event::Drained).0.phase == Phase::Stopped,
        next(next(state, Event::ShutdownRequested).0, Event::Drained).1 == Action::Release,
{
}

} // verus!
