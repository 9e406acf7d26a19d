//! The decisions of the supervisor's background loop: connect, await the
//! handshake, forward queued events until the connection fails, back off,
//! and try again, without end.

use crate::backoff::{lemma_failure_never_shrinks, lemma_failures_monotone, Backoff, BackoffView};
use vstd::prelude::*;

verus! {

/// Where the background loop stands: the outside work whose outcome it
/// awaits.
#[derive(Clone, Copy, Debug, PartialEq, Eq, Structural)]
pub enum SupervisorPhase {
    /// A fresh handler is being made and a TCP connect attempted.
    Connecting,
    /// A connection was started on the new socket; its handshake is awaited.
    AwaitingReady,
    /// The connection is live; the next queued event is awaited.
    Draining,
    /// One event was handed to the live connection; its answer is awaited.
    Forwarding,
    /// The attempt failed; the backoff delay is being waited out.
    Snoozing,
}

/// How a piece of outside work ended.
#[derive(Clone, Debug, PartialEq, Eq)]
pub enum SupervisorOutcome<E> {
    /// The TCP connect failed.
    ConnectFailed,
    /// The TCP connect succeeded.
    Connected,
    /// The connection dropped its ready signal without firing it.
    ReadyDropped,
    /// The connection fired its ready signal.
    ReadyFired,
    /// The event queue handed over its oldest event.
    Event(E),
    /// The event queue has ended: no handle is left to submit events.
    QueueClosed,
    /// The live connection took the event.
    Forwarded,
    /// The live connection no longer takes events.
    ForwardFailed,
    /// The backoff delay has passed.
    Snoozed,
}

/// The outside work to perform next.
#[derive(Clone, Debug, PartialEq, Eq)]
pub enum SupervisorAction<E> {
    /// Make a fresh handler and connect to the address.
    Connect,
    /// Start a connection on the new socket with the fresh handler and a new
    /// ready signal, then await the signal.
    AwaitReady,
    /// Await the next event from the queue.
    NextEvent,
    /// Hand this event to the live connection.
    Forward(E),
    /// Wait for this many milliseconds.
    Snooze(u64),
    /// Nothing can arrive any more: stay parked, do not exit.
    Idle,
}

/// Mathematical state of the background loop.
pub struct SupervisorLoopView {
    pub backoff: BackoffView,
    pub phase: SupervisorPhase,
}

impl SupervisorLoopView {
    /// The backoff is well formed and its delays fit a machine word.
    pub open spec fn wf(self) -> bool {
        &&& self.backoff.wf()
        &&& self.backoff.max_delay <= u64::MAX
    }

    /// The loop after the failure of an attempt, and the delay to wait.
    pub open spec fn fail<E>(self) -> (SupervisorLoopView, SupervisorAction<E>) {
        (
            SupervisorLoopView {
                backoff: self.backoff.after_failure(),
                phase: SupervisorPhase::Snoozing,
            },
            SupervisorAction::Snooze(self.backoff.current_delay as u64),
        )
    }

    /// The loop in another phase, its backoff untouched.
    pub open spec fn enter(self, phase: SupervisorPhase) -> SupervisorLoopView {
        SupervisorLoopView { phase, ..self }
    }

    /// One decision of the loop: the next state and the next outside work,
    /// or `None` where the outcome is not one that the phase awaits.
    pub open spec fn step<E>(self, outcome: SupervisorOutcome<E>) -> Option<
        (SupervisorLoopView, SupervisorAction<E>),
    > {
        match (self.phase, outcome) {
            (SupervisorPhase::Connecting, SupervisorOutcome::ConnectFailed) => Some(self.fail()),
            (SupervisorPhase::Connecting, SupervisorOutcome::Connected) => Some(
                (
                    SupervisorLoopView {
                        backoff: self.backoff.after_reset(),
                        phase: SupervisorPhase::AwaitingReady,
                    },
                    SupervisorAction::AwaitReady,
                ),
            ),
            (SupervisorPhase::AwaitingReady, SupervisorOutcome::ReadyDropped) => Some(self.fail()),
            (SupervisorPhase::AwaitingReady, SupervisorOutcome::ReadyFired) => Some(
                (self.enter(SupervisorPhase::Draining), SupervisorAction::NextEvent),
            ),
            (SupervisorPhase::Draining, SupervisorOutcome::Event(event)) => Some(
                (self.enter(SupervisorPhase::Forwarding), SupervisorAction::Forward(event)),
            ),
            (SupervisorPhase::Draining, SupervisorOutcome::QueueClosed) => Some(
                (self, SupervisorAction::Idle),
            ),
            (SupervisorPhase::Forwarding, SupervisorOutcome::Forwarded) => Some(
                (self.enter(SupervisorPhase::Draining), SupervisorAction::NextEvent),
            ),
            (SupervisorPhase::Forwarding, SupervisorOutcome::ForwardFailed) => Some(self.fail()),
            (SupervisorPhase::Snoozing, SupervisorOutcome::Snoozed) => Some(
                (self.enter(SupervisorPhase::Connecting), SupervisorAction::Connect),
            ),
            _ => None,
        }
    }
}

/// The decisions of the supervisor's background loop. The loop itself runs
/// outside: it performs the action that `step` returns and reports the
/// outcome to the next `step`. A new loop is `Connecting`: the first thing
/// to do is `SupervisorAction::Connect`.
#[derive(Clone, Copy, Debug, PartialEq, Eq)]
pub struct SupervisorLoop {
    backoff: Backoff,
    phase: SupervisorPhase,
}

impl View for SupervisorLoop {
    type V = SupervisorLoopView;

    closed spec fn view(&self) -> SupervisorLoopView {
        SupervisorLoopView { backoff: self.backoff@, phase: self.phase }
    }
}

impl SupervisorLoop {
    /// Holds of every loop that exists: its state is well formed.
    #[verifier::type_invariant]
    pub open spec fn inv(self) -> bool {
        self@.wf()
    }

    /// A loop that is about to make its first attempt.
    pub fn new(backoff: Backoff) -> (made: SupervisorLoop)
        ensures
            made@ == (SupervisorLoopView { backoff: backoff@, phase: SupervisorPhase::Connecting }),
            made@.wf(),
    {
        proof {
            use_type_invariant(&backoff);
        }
        SupervisorLoop { backoff, phase: SupervisorPhase::Connecting }
    }

    /// The phase that the loop is in.
    pub fn phase(&self) -> (phase: SupervisorPhase)
        ensures
            phase == self@.phase,
    {
        self.phase
    }

    /// The loop's backoff as it stands.
    pub fn backoff(&self) -> (backoff: Backoff)
        ensures
            backoff@ == self@.backoff,
    {
        self.backoff
    }

    fn fail<E>(&mut self) -> (action: SupervisorAction<E>)
        ensures
            (final(self)@, action) == old(self)@.fail::<E>(),
    {
        proof {
            use_type_invariant(&*self);
            lemma_failure_never_shrinks(self.backoff@);
        }
        let delay: u64 = self.backoff.snooze();
        self.phase = SupervisorPhase::Snoozing;
        SupervisorAction::Snooze(delay)
    }

    /// Takes the outcome of the outside work that was asked for last and
    /// decides what follows. An outcome that the current phase does not
    /// await is handed back, and the loop stays as it was.
    pub fn step<E>(&mut self, outcome: SupervisorOutcome<E>) -> (result: Result<
        SupervisorAction<E>,
        SupervisorOutcome<E>,
    >)
        ensures
            match old(self)@.step(outcome) {
                Some((next, action)) => final(self)@ == next && result == Ok::<
                    SupervisorAction<E>,
                    SupervisorOutcome<E>,
                >(action),
                None => final(self)@ == old(self)@ && result == Err::<
                    SupervisorAction<E>,
                    SupervisorOutcome<E>,
                >(outcome),
            },
            final(self)@.wf(),
    {
        proof {
            use_type_invariant(&*self);
            lemma_step_preserves_wf(self@, outcome);
        }
        match (self.phase, outcome) {
            (SupervisorPhase::Connecting, SupervisorOutcome::ConnectFailed) => Ok(self.fail()),
            (SupervisorPhase::Connecting, SupervisorOutcome::Connected) => {
                self.backoff.reset();
                self.phase = SupervisorPhase::AwaitingReady;
                Ok(SupervisorAction::AwaitReady)
            },
            (SupervisorPhase::AwaitingReady, SupervisorOutcome::ReadyDropped) => Ok(self.fail()),
            (SupervisorPhase::AwaitingReady, SupervisorOutcome::ReadyFired) => {
                self.phase = SupervisorPhase::Draining;
                Ok(SupervisorAction::NextEvent)
            },
            (SupervisorPhase::Draining, SupervisorOutcome::Event(event)) => {
                self.phase = SupervisorPhase::Forwarding;
                Ok(SupervisorAction::Forward(event))
            },
            (SupervisorPhase::Draining, SupervisorOutcome::QueueClosed) => Ok(
                SupervisorAction::Idle,
            ),
            (SupervisorPhase::Forwarding, SupervisorOutcome::Forwarded) => {
                self.phase = SupervisorPhase::Draining;
                Ok(SupervisorAction::NextEvent)
            },
            (SupervisorPhase::Forwarding, SupervisorOutcome::ForwardFailed) => Ok(self.fail()),
            (SupervisorPhase::Snoozing, SupervisorOutcome::Snoozed) => {
                self.phase = SupervisorPhase::Connecting;
                Ok(SupervisorAction::Connect)
            },
            (_, other) => Err(other),
        }
    }
}

impl SupervisorLoopView {
    /// The loop after a whole history of outcomes, together with the actions
    /// it asked for, one per outcome; `None` where some outcome came in a
    /// phase that does not await it.
    pub open spec fn run<E>(self, outcomes: Seq<SupervisorOutcome<E>>) -> Option<
        (SupervisorLoopView, Seq<SupervisorAction<E>>),
    >
        decreases outcomes.len(),
    {
        if outcomes.len() == 0 {
            Some((self, Seq::empty()))
        } else {
            match self.run(outcomes.drop_last()) {
                Some((before, actions)) => match before.step(outcomes.last()) {
                    Some((next, action)) => Some((next, actions.push(action))),
                    None => None,
                },
                None => None,
            }
        }
    }
}

/// The events that the queue handed over during a history, oldest first.
pub open spec fn events_taken<E>(outcomes: Seq<SupervisorOutcome<E>>) -> Seq<E>
    decreases outcomes.len(),
{
    if outcomes.len() == 0 {
        Seq::empty()
    } else {
        let before = events_taken(outcomes.drop_last());
        match outcomes.last() {
            SupervisorOutcome::Event(event) => before.push(event),
            _ => before,
        }
    }
}

/// The events that the loop handed to a connection, oldest first.
pub open spec fn events_forwarded<E>(actions: Seq<SupervisorAction<E>>) -> Seq<E>
    decreases actions.len(),
{
    if actions.len() == 0 {
        Seq::empty()
    } else {
        let before = events_forwarded(actions.drop_last());
        match actions.last() {
            SupervisorAction::Forward(event) => before.push(event),
            _ => before,
        }
    }
}

/// A connection that stays up while `events` come from the queue: each is
/// taken and then accepted by the connection.
pub open spec fn live_drain<E>(events: Seq<E>) -> Seq<SupervisorOutcome<E>>
    decreases events.len(),
{
    if events.len() == 0 {
        Seq::empty()
    } else {
        live_drain(events.drop_last()).push(SupervisorOutcome::Event(events.last())).push(
            SupervisorOutcome::Forwarded,
        )
    }
}

/// `failures` connect attempts that each fail and are each followed by the
/// full backoff wait.
pub open spec fn failed_attempts<E>(failures: nat) -> Seq<SupervisorOutcome<E>>
    decreases failures,
{
    if failures == 0 {
        Seq::empty()
    } else {
        failed_attempts((failures - 1) as nat).push(SupervisorOutcome::ConnectFailed).push(
            SupervisorOutcome::Snoozed,
        )
    }
}

/// What the loop asks for during `failures` failed attempts: after the
/// failure number `k`, counted from zero, a wait of the delay that `k`
/// failures have led to, and then the next attempt.
pub open spec fn retry_schedule<E>(backoff: BackoffView, failures: nat) -> Seq<SupervisorAction<E>>
    decreases failures,
{
    if failures == 0 {
        Seq::empty()
    } else {
        let earlier = (failures - 1) as nat;
        retry_schedule(backoff, earlier).push(
            SupervisorAction::Snooze(backoff.after_failures(earlier).current_delay as u64),
        ).push(SupervisorAction::Connect)
    }
}

/// How a history that is longer by one outcome runs: as the shorter one,
/// then one more step.
pub proof fn lemma_run_one_more<E>(
    state: SupervisorLoopView,
    outcomes: Seq<SupervisorOutcome<E>>,
    outcome: SupervisorOutcome<E>,
)
    ensures
        state.run(outcomes.push(outcome)) == match state.run(outcomes) {
            Some((before, actions)) => match before.step(outcome) {
                Some((next, action)) => Some((next, actions.push(action))),
                None => None,
            },
            None => None,
        },
{
    assert(outcomes.push(outcome).drop_last() =~= outcomes);
}

/// What was forwarded in a list of actions that is longer by one action.
pub proof fn lemma_forwarded_one_more<E>(
    actions: Seq<SupervisorAction<E>>,
    action: SupervisorAction<E>,
)
    ensures
        events_forwarded(actions.push(action)) == match action {
            SupervisorAction::Forward(event) => events_forwarded(actions).push(event),
            _ => events_forwarded(actions),
        },
{
    assert(actions.push(action).drop_last() =~= actions);
}

/// Every step keeps the loop well formed.
pub proof fn lemma_step_preserves_wf<E>(state: SupervisorLoopView, outcome: SupervisorOutcome<E>)
    requires
        state.wf(),
    ensures
        state.step(outcome) matches Some((next, _)) ==> next.wf(),
{
    lemma_failure_never_shrinks(state.backoff);
}

/// Events are taken from the queue only while a connection is live, and an
/// event that was taken is handed to that connection at once.
pub proof fn lemma_event_taken_only_when_live<E>(state: SupervisorLoopView, event: E)
    ensures
        state.step(SupervisorOutcome::Event(event)) is Some <==> state.phase
            == SupervisorPhase::Draining,
        state.step(SupervisorOutcome::Event(event)) matches Some((next, action)) ==> action
            == SupervisorAction::Forward(event) && next.phase == SupervisorPhase::Forwarding,
{
}

/// Over any history that the loop accepts, the events handed to connections
/// are exactly the events taken from the queue, in the order in which they
/// were taken: none is reordered, duplicated or dropped by the loop.
pub proof fn lemma_forwards_in_queue_order<E>(
    state: SupervisorLoopView,
    outcomes: Seq<SupervisorOutcome<E>>,
)
    ensures
        state.run(outcomes) matches Some((_, actions)) ==> actions.len() == outcomes.len()
            && events_forwarded(actions) == events_taken(outcomes),
    decreases outcomes.len(),
{
    if outcomes.len() > 0 {
        lemma_forwards_in_queue_order(state, outcomes.drop_last());
        match state.run(outcomes.drop_last()) {
            Some((before, earlier)) => match before.step(outcomes.last()) {
                Some((next, action)) => {
                    let actions = earlier.push(action);
                    assert(actions.drop_last() =~= earlier);
                    assert(actions.last() == action);
                },
                None => {},
            },
            None => {},
        }
    }
}

/// While the connection stays up, every event that the queue hands over is
/// forwarded to it, in queue order, each exactly once; the loop ends where
/// it began, ready for the next event, its backoff untouched.
pub proof fn lemma_live_connection_is_fifo<E>(state: SupervisorLoopView, events: Seq<E>)
    requires
        state.phase == SupervisorPhase::Draining,
    ensures
        state.run(live_drain(events)) matches Some((end, actions)) && end == state
            && events_forwarded(actions) == events,
    decreases events.len(),
{
    if events.len() > 0 {
        let earlier = events.drop_last();
        let event = events.last();
        lemma_live_connection_is_fifo(state, earlier);
        let taken = live_drain(earlier).push(SupervisorOutcome::Event(event));
        lemma_run_one_more(state, live_drain(earlier), SupervisorOutcome::Event(event));
        lemma_run_one_more(state, taken, SupervisorOutcome::Forwarded);
        let (_, before) = state.run(live_drain(earlier)).unwrap();
        let forwarded = before.push(SupervisorAction::Forward(event));
        lemma_forwarded_one_more(before, SupervisorAction::Forward(event));
        lemma_forwarded_one_more(forwarded, SupervisorAction::<E>::NextEvent);
        assert(earlier.push(event) =~= events);
    }
}

/// Any number of failed attempts followed by one success: the loop waits
/// the delays of the backoff's growth curve, one per failure, and after the
/// success the delay is back at its minimum while the handshake is awaited.
pub proof fn lemma_reconnect_schedule<E>(state: SupervisorLoopView, failures: nat)
    requires
        state.wf(),
        state.phase == SupervisorPhase::Connecting,
    ensures
        state.run(failed_attempts::<E>(failures)) == Some(
            (
                SupervisorLoopView {
                    backoff: state.backoff.after_failures(failures),
                    phase: SupervisorPhase::Connecting,
                },
                retry_schedule::<E>(state.backoff, failures),
            ),
        ),
        state.run(failed_attempts::<E>(failures).push(SupervisorOutcome::Connected)) == Some(
            (
                SupervisorLoopView {
                    backoff: state.backoff.after_reset(),
                    phase: SupervisorPhase::AwaitingReady,
                },
                retry_schedule::<E>(state.backoff, failures).push(SupervisorAction::AwaitReady),
            ),
        ),
    decreases failures,
{
    let attempts = failed_attempts::<E>(failures);
    if failures > 0 {
        let earlier = (failures - 1) as nat;
        lemma_reconnect_schedule::<E>(state, earlier);
        lemma_failures_monotone(state.backoff, earlier, earlier);
        let failed = failed_attempts::<E>(earlier).push(SupervisorOutcome::ConnectFailed);
        lemma_run_one_more(state, failed_attempts::<E>(earlier), SupervisorOutcome::ConnectFailed);
        lemma_run_one_more(state, failed, SupervisorOutcome::Snoozed);
    }
    lemma_failures_monotone(state.backoff, failures, failures);
    lemma_run_one_more(state, attempts, SupervisorOutcome::Connected);
}

/// A history in two parts runs as the first part, then the second from
/// where the first ended.
pub proof fn lemma_run_in_two_parts<E>(
    state: SupervisorLoopView,
    first: Seq<SupervisorOutcome<E>>,
    second: Seq<SupervisorOutcome<E>>,
)
    ensures
        state.run(first + second) == match state.run(first) {
            Some((middle, early)) => match middle.run(second) {
                Some((end, late)) => Some((end, early + late)),
                None => None,
            },
            None => None,
        },
    decreases second.len(),
{
    if second.len() == 0 {
        assert(first + second =~= first);
        match state.run(first) {
            Some((_, early)) => {
                assert(early + Seq::<SupervisorAction<E>>::empty() =~= early);
            },
            None => {},
        }
    } else {
        let shorter = second.drop_last();
        lemma_run_in_two_parts(state, first, shorter);
        assert(first + second =~= (first + shorter).push(second.last()));
        lemma_run_one_more(state, first + shorter, second.last());
        match state.run(first) {
            Some((middle, early)) => match middle.run(shorter) {
                Some((before, late)) => match before.step(second.last()) {
                    Some((_, action)) => {
                        assert((early + late).push(action) =~= early + late.push(action));
                    },
                    None => {},
                },
                None => {},
            },
            None => {},
        }
    }
}

/// What was forwarded in two lists of actions, one after the other.
pub proof fn lemma_forwarded_in_two_parts<E>(
    early: Seq<SupervisorAction<E>>,
    late: Seq<SupervisorAction<E>>,
)
    ensures
        events_forwarded(early + late) == events_forwarded(early) + events_forwarded(late),
    decreases late.len(),
{
    if late.len() == 0 {
        assert(early + late =~= early);
        assert(events_forwarded(early) + Seq::<E>::empty() =~= events_forwarded(early));
    } else {
        let shorter = late.drop_last();
        lemma_forwarded_in_two_parts(early, shorter);
        assert(early + late =~= (early + shorter).push(late.last()));
        lemma_forwarded_one_more(early + shorter, late.last());
        match late.last() {
            SupervisorAction::Forward(event) => {
                assert((events_forwarded(early) + events_forwarded(shorter)).push(event)
                    =~= events_forwarded(early) + events_forwarded(shorter).push(event));
            },
            _ => {},
        }
    }
}

/// A connection dies under an event, the backoff is waited out, and the
/// next attempt connects and becomes ready.
pub open spec fn reconnect<E>() -> Seq<SupervisorOutcome<E>> {
    seq![
        SupervisorOutcome::ForwardFailed,
        SupervisorOutcome::Snoozed,
        SupervisorOutcome::Connected,
        SupervisorOutcome::ReadyFired,
    ]
}

/// The queue outlives the connection: when a forward fails while `pending`
/// events are still queued, the loop takes none of them until the next
/// connection is ready, and then forwards all of them to it, in the order
/// in which they were queued and each exactly once. The event under which the
/// connection died is not forwarded again.
pub proof fn lemma_pending_events_reach_next_connection<E>(
    state: SupervisorLoopView,
    pending: Seq<E>,
)
    requires
        state.phase == SupervisorPhase::Forwarding,
    ensures
        state.run(reconnect::<E>()) matches Some((ready, actions)) && ready.phase
            == SupervisorPhase::Draining && events_forwarded(actions) == Seq::<E>::empty(),
        state.run(reconnect::<E>() + live_drain(pending)) matches Some((end, actions))
            && end.phase == SupervisorPhase::Draining && end.backoff == state.backoff.after_reset()
            && events_forwarded(actions) == pending,
{
    let none = Seq::<SupervisorOutcome<E>>::empty();
    let died = none.push(SupervisorOutcome::ForwardFailed);
    let waited = died.push(SupervisorOutcome::Snoozed);
    let connected = waited.push(SupervisorOutcome::Connected);
    assert(reconnect::<E>() =~= connected.push(SupervisorOutcome::ReadyFired));
    lemma_run_one_more(state, none, SupervisorOutcome::ForwardFailed);
    lemma_run_one_more(state, died, SupervisorOutcome::Snoozed);
    lemma_run_one_more(state, waited, SupervisorOutcome::Connected);
    lemma_run_one_more(state, connected, SupervisorOutcome::ReadyFired);
    let (ready, early) = state.run(reconnect::<E>()).unwrap();
    lemma_forwards_in_queue_order(state, reconnect::<E>());
    assert(events_taken(reconnect::<E>()) =~= Seq::<E>::empty()) by {
        reveal_with_fuel(events_taken, 5);
    }
    lemma_live_connection_is_fifo(ready, pending);
    lemma_run_in_two_parts(state, reconnect::<E>(), live_drain(pending));
    let (_, late) = ready.run(live_drain(pending)).unwrap();
    lemma_forwarded_in_two_parts(early, late);
    assert(Seq::<E>::empty() + pending =~= pending);
}

/// Whether the connection that was started last is still up at the end of a
/// history: it became ready, and since then no forward to it has failed and
/// no new attempt has begun.
pub open spec fn connection_live_after<E>(outcomes: Seq<SupervisorOutcome<E>>) -> bool
    decreases outcomes.len(),
{
    if outcomes.len() == 0 {
        false
    } else {
        match outcomes.last() {
            SupervisorOutcome::ReadyFired => true,
            SupervisorOutcome::Event(_) | SupervisorOutcome::Forwarded
            | SupervisorOutcome::QueueClosed => connection_live_after(outcomes.drop_last()),
            _ => false,
        }
    }
}

/// No connection is used once it is gone. From its start, the loop is ready
/// to take or forward an event exactly while the connection that was
/// started last is still up; after a failed forward or a failed handshake
/// nothing is taken from the queue until a new connection is ready.
pub proof fn lemma_events_only_to_live_connection<E>(
    start: SupervisorLoopView,
    outcomes: Seq<SupervisorOutcome<E>>,
)
    requires
        start.phase == SupervisorPhase::Connecting,
    ensures
        start.run(outcomes) matches Some((end, _)) ==> (connection_live_after(outcomes) <==> (
            end.phase == SupervisorPhase::Draining || end.phase == SupervisorPhase::Forwarding)),
    decreases outcomes.len(),
{
    if outcomes.len() > 0 {
        lemma_events_only_to_live_connection(start, outcomes.drop_last());
    }
}

} // verus!
