//! What holds of every run of the relay.
//!
//! A run is the sequence of observations that a caller reports to a relay,
//! one call of [`PacedRelay::step`](crate::relay::PacedRelay::step) for each.
//! The laws below are stated over the same functions of [`RelayView`] by
//! which `step` says what it does, so they hold of every sequence of calls.

use vstd::prelude::*;
use crate::error::RelayError;
use crate::relay::{Action, Event, RelayView};

verus! {

/// One report to the relay: what happened, and the time at which it happened.
pub struct Observation {
    /// What is reported.
    pub event: Event,
    /// The reading of the clock that is handed over with it.
    pub now: int,
}

/// The state that the relay reaches from `start` when `steps` are reported
/// to it in order.
pub open spec fn run(start: RelayView, steps: Seq<Observation>) -> RelayView
    decreases steps.len(),
{
    if steps.len() == 0 {
        start
    } else {
        run(start, steps.drop_last()).after(steps.last().event, steps.last().now)
    }
}

/// The relay's answer to the report at position `at`. Where the answer is
/// [`Action::Send`], a send starts at the time of that report.
pub open spec fn answer(start: RelayView, steps: Seq<Observation>, at: int) -> Result<
    Action,
    RelayError,
> {
    run(start, steps.take(at)).response(steps[at].event, steps[at].now)
}

/// Every report is one that the relay accepts in the state it has reached.
pub open spec fn admissible(start: RelayView, steps: Seq<Observation>) -> bool {
    forall|at: int|
        0 <= at < steps.len() ==> (#[trigger] run(start, steps.take(at))).accepts(steps[at].event)
}

/// The clock never runs backwards from one report to a later one.
pub open spec fn monotonic(steps: Seq<Observation>) -> bool {
    forall|earlier: int, later: int|
        0 <= earlier <= later < steps.len() ==> steps[earlier].now <= steps[later].now
}

/// Whether `event` reports the outcome of what the relay asked for. Nothing
/// does so once the relay has ended with an error.
pub open spec fn answers(asked: Result<Action, RelayError>, event: Event) -> bool {
    match asked {
        Ok(Action::Receive) => event is Arrived || event is Closed,
        Ok(Action::Sleep { .. }) => event is Woke,
        Ok(Action::Send) => event is Sent,
        Err(_) => false,
    }
}

/// What the relay had asked for when the report at position `at` came in.
/// Before the first report that is to receive, as an idle relay asks at any
/// time.
pub open spec fn asked_before(start: RelayView, steps: Seq<Observation>, at: int) -> Result<
    Action,
    RelayError,
> {
    if at == 0 {
        Ok(Action::Receive)
    } else {
        answer(start, steps, at - 1)
    }
}

/// The caller does what the relay asks: every report is the outcome of the
/// action that the relay asked for last, and nothing is reported after the
/// relay has ended.
pub open spec fn obedient(start: RelayView, steps: Seq<Observation>) -> bool {
    forall|at: int|
        0 <= at < steps.len() ==> answers(#[trigger] asked_before(start, steps, at), steps[at].event)
}

/// The messages that arrived during the run, in the order of their arrival.
pub open spec fn arrivals(steps: Seq<Observation>) -> Seq<Seq<u8>>
    decreases steps.len(),
{
    if steps.len() == 0 {
        Seq::empty()
    } else {
        let before = arrivals(steps.drop_last());
        match steps.last().event {
            Event::Arrived(message) => before.push(message@),
            _ => before,
        }
    }
}

/// The messages whose sending was attempted during the run, in the order of
/// the attempts: for each reported send, the message that was held then.
pub open spec fn attempts(start: RelayView, steps: Seq<Observation>) -> Seq<Seq<u8>>
    decreases steps.len(),
{
    if steps.len() == 0 {
        Seq::empty()
    } else {
        let before = attempts(start, steps.drop_last());
        if steps.last().event is Sent {
            before + run(start, steps.drop_last()).held()
        } else {
            before
        }
    }
}

/// Two runs that differ at most in whether their sends delivered.
pub open spec fn same_but_for_delivery(one: Seq<Observation>, other: Seq<Observation>) -> bool {
    &&& one.len() == other.len()
    &&& forall|at: int|
        0 <= at < one.len() ==> {
            &&& one[at].now == other[at].now
            &&& one[at].event == other[at].event || (one[at].event is Sent
                && other[at].event is Sent)
        }
}

/// No message is dropped, sent twice, or sent out of order.
///
/// At every point of a run, the messages that the relay has taken in are the
/// messages whose sending was attempted, in the same order, followed by the
/// one that is still held, if any. So whenever a relay that started idle is
/// idle again, exactly the messages that arrived were sent, each once, in the
/// order of their arrival.
pub proof fn every_message_is_sent_once_in_order(start: RelayView, steps: Seq<Observation>)
    requires
        admissible(start, steps),
    ensures
        start.held() + arrivals(steps) == attempts(start, steps) + run(start, steps).held(),
        attempts(start, steps).is_prefix_of(start.held() + arrivals(steps)),
        start.slot is None && run(start, steps).slot is None ==> {
            &&& attempts(start, steps) == arrivals(steps)
            &&& attempts(start, steps).len() == arrivals(steps).len()
        },
    decreases steps.len(),
{
    if steps.len() > 0 {
        let before = steps.drop_last();
        lemma_prefix_is_admissible(start, steps, steps.len() - 1);
        every_message_is_sent_once_in_order(start, before);
        assert(start.held() + arrivals(steps) =~= attempts(start, steps) + run(
            start,
            steps,
        ).held());
    }
}

/// What goes into the handoff channel comes out of the relay, in that order.
///
/// Let the channel hand its messages to the relay in the order in which they
/// were put in. Then the messages whose sending was attempted are, at every
/// point of the run, the first of those that were put in, in the same order;
/// and once every message has arrived and the relay is idle, they are all of
/// them: as many sends were attempted as messages were put in.
pub proof fn sends_follow_the_channel(
    start: RelayView,
    steps: Seq<Observation>,
    enqueued: Seq<Seq<u8>>,
)
    requires
        start.slot is None,
        admissible(start, steps),
        arrivals(steps).is_prefix_of(enqueued),
    ensures
        attempts(start, steps).is_prefix_of(enqueued),
        arrivals(steps) == enqueued && run(start, steps).slot is None ==> {
            &&& attempts(start, steps) == enqueued
            &&& attempts(start, steps).len() == enqueued.len()
        },
{
    every_message_is_sent_once_in_order(start, steps);
}

/// A caller that does what an idle relay asks reports only what the relay
/// accepts.
pub proof fn obedient_runs_are_admissible(start: RelayView, steps: Seq<Observation>)
    requires
        start.slot is None,
        obedient(start, steps),
    ensures
        admissible(start, steps),
{
    assert forall|at: int| 0 <= at < steps.len() implies (#[trigger] run(
        start,
        steps.take(at),
    )).accepts(steps[at].event) by {
        assert(answers(asked_before(start, steps, at), steps[at].event));
        if at > 0 {
            lemma_run_unfolds(start, steps, at - 1);
        }
    }
}

/// Sends keep the minimum interval.
///
/// Take a run on a clock that never runs backwards, in which the relay asks
/// for a send at position `second`. Then that send starts no sooner than one
/// interval after the end of any send attempt reported before it. If the
/// caller does what the relay asks, and the relay asked for a send at an
/// earlier position `first` as well, the two sends start at least one
/// interval apart.
pub proof fn sends_keep_the_interval(
    start: RelayView,
    steps: Seq<Observation>,
    first: int,
    second: int,
)
    requires
        monotonic(steps),
        0 <= first < second < steps.len(),
        answer(start, steps, second) == Ok::<Action, RelayError>(Action::Send),
    ensures
        steps[first].event is Sent ==> steps[second].now - steps[first].now >= start.interval,
        obedient(start, steps) && answer(start, steps, first) == Ok::<Action, RelayError>(
            Action::Send,
        ) ==> steps[second].now - steps[first].now >= start.interval,
{
    let seen = steps.take(second + 1);
    lemma_run_unfolds(start, steps, second);
    lemma_interval_is_kept(start, seen);
    if steps[first].event is Sent {
        lemma_last_send_is_no_older(start, seen, first);
    }
    if obedient(start, steps) && answer(start, steps, first) == Ok::<Action, RelayError>(
        Action::Send,
    ) {
        assert(answers(asked_before(start, steps, first + 1), steps[first + 1].event));
        lemma_last_send_is_no_older(start, seen, first + 1);
    }
}

/// While no message arrives, the relay only waits for one.
///
/// In a run from an idle relay in which no message arrives, no send is
/// attempted, and every answer of the relay is to block on the channel: it
/// asks neither for a send nor for a timed sleep, so there is nothing that
/// would wake it before a message does. The one other answer is the error
/// that ends the relay when the channel is closed.
pub proof fn an_idle_relay_only_waits(start: RelayView, steps: Seq<Observation>, at: int)
    requires
        start.slot is None,
        admissible(start, steps),
        arrivals(steps).len() == 0,
        0 <= at < steps.len(),
    ensures
        attempts(start, steps).len() == 0,
        run(start, steps).slot is None,
        answer(start, steps, at) == if steps[at].event is Closed {
            Err::<Action, RelayError>(RelayError::ChannelClosed)
        } else {
            Ok::<Action, RelayError>(Action::Receive)
        },
{
    every_message_is_sent_once_in_order(start, steps);
    let seen = steps.take(at + 1);
    lemma_prefix_is_admissible(start, steps, at + 1);
    lemma_arrivals_grow(steps, at + 1);
    every_message_is_sent_once_in_order(start, seen);
    lemma_run_unfolds(start, steps, at);
}

/// A send that fails costs its message and nothing else.
///
/// Two runs that differ only in whether their sends delivered leave the relay
/// in the same state, attempt the same messages, and get the same answers:
/// after a failed send the next message waits for the usual interval, no
/// longer. The report of a send, failed or not, never ends the relay: it is
/// answered with the request to receive the next message.
pub proof fn failed_sends_change_nothing(
    start: RelayView,
    one: Seq<Observation>,
    other: Seq<Observation>,
)
    requires
        same_but_for_delivery(one, other),
    ensures
        run(start, one) == run(start, other),
        attempts(start, one) == attempts(start, other),
        forall|at: int|
            0 <= at < one.len() ==> #[trigger] answer(start, one, at) == answer(start, other, at),
        forall|at: int|
            0 <= at < one.len() && one[at].event is Sent ==> #[trigger] answer(start, one, at)
                == Ok::<Action, RelayError>(Action::Receive),
    decreases one.len(),
{
    if one.len() > 0 {
        failed_sends_change_nothing(start, one.drop_last(), other.drop_last());
    }
    assert forall|at: int| 0 <= at < one.len() implies #[trigger] answer(start, one, at) == answer(
        start,
        other,
        at,
    ) by {
        if at < one.len() - 1 {
            assert(one.drop_last().take(at) == one.take(at));
            assert(other.drop_last().take(at) == other.take(at));
            assert(answer(start, one.drop_last(), at) == answer(start, other.drop_last(), at));
        }
    }
}

proof fn lemma_run_unfolds(start: RelayView, steps: Seq<Observation>, at: int)
    requires
        0 <= at < steps.len(),
    ensures
        run(start, steps.take(at + 1)) == run(start, steps.take(at)).after(
            steps[at].event,
            steps[at].now,
        ),
{
    assert(steps.take(at + 1).drop_last() == steps.take(at));
}

proof fn lemma_prefix_is_admissible(start: RelayView, steps: Seq<Observation>, len: int)
    requires
        admissible(start, steps),
        0 <= len <= steps.len(),
    ensures
        admissible(start, steps.take(len)),
{
    assert forall|at: int| 0 <= at < len implies (#[trigger] run(
        start,
        steps.take(len).take(at),
    )).accepts(steps.take(len)[at].event) by {
        assert(steps.take(len).take(at) == steps.take(at));
    }
}

proof fn lemma_arrivals_grow(steps: Seq<Observation>, len: int)
    requires
        0 <= len <= steps.len(),
    ensures
        arrivals(steps.take(len)).len() <= arrivals(steps).len(),
    decreases steps.len(),
{
    if len == steps.len() {
        assert(steps.take(len) == steps);
    } else {
        assert(steps.drop_last().take(len) == steps.take(len));
        lemma_arrivals_grow(steps.drop_last(), len);
    }
}

proof fn lemma_interval_is_kept(start: RelayView, steps: Seq<Observation>)
    ensures
        run(start, steps).interval == start.interval,
    decreases steps.len(),
{
    if steps.len() > 0 {
        lemma_interval_is_kept(start, steps.drop_last());
    }
}

proof fn lemma_last_send_is_no_older(start: RelayView, steps: Seq<Observation>, sent_at: int)
    requires
        monotonic(steps),
        0 <= sent_at < steps.len(),
        steps[sent_at].event is Sent,
    ensures
        run(start, steps).last_send >= steps[sent_at].now,
    decreases steps.len(),
{
    if !(steps.last().event is Sent) {
        let before = steps.drop_last();
        lemma_last_send_is_no_older(start, before, sent_at);
    }
}

} // verus!
