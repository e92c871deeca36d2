//! The pacing state machine.
//!
//! The relay holds at most one message at a time. A message that arrives is
//! held until the minimum interval has passed since the last send, and is then
//! sent. The relay itself neither waits nor sends: [`PacedRelay::step`] takes
//! what has just happened together with the time at which it happened, and
//! answers with the one thing to do next. The caller does that, reads the
//! clock, and reports back.
//!
//! All times are nanoseconds on a monotonic clock, counted from an origin of
//! the caller's choice.

use vstd::prelude::*;
use crate::error::RelayError;
use crate::message::Message;

verus! {

/// The default minimum interval: 3000 microseconds.
pub const MIN_INTERVAL_NANOS: u64 = 3_000_000;

/// What the caller reports to the relay.
#[derive(Debug)]
pub enum Event {
    /// The handoff channel gave its next message.
    Arrived(Message),
    /// The handoff channel is closed and will give no further message.
    Closed,
    /// A sleep that the relay asked for is over.
    Woke,
    /// The send that the relay asked for has been attempted.
    Sent {
        /// Whether the output endpoint took the message.
        delivered: bool,
    },
}

/// What the relay asks the caller to do next.
#[derive(Debug, Clone, Copy, PartialEq, Eq, Structural)]
pub enum Action {
    /// Block until the handoff channel gives a message or is closed, then
    /// report [`Event::Arrived`] or [`Event::Closed`].
    Receive,
    /// Sleep for exactly this long, then report [`Event::Woke`].
    Sleep {
        /// The time left until the held message may be sent.
        nanos: u64,
    },
    /// Send the held message to the output endpoint, then report
    /// [`Event::Sent`] with the time at which the attempt ended.
    Send,
}

/// The relay as a mathematical value.
///
/// The relay is idle when `slot` is `None`, and holds a message otherwise.
pub struct RelayView {
    /// The minimum time between the end of one send and the start of the next.
    pub interval: int,
    /// The time at which the most recent send attempt ended, or at which the
    /// relay was created if there was none yet.
    pub last_send: int,
    /// The message that awaits its deadline, if any.
    pub slot: Option<Seq<u8>>,
}

impl RelayView {
    /// A relay that has just been created at time `now`.
    pub open spec fn fresh(interval: int, now: int) -> RelayView {
        RelayView { interval, last_send: now, slot: None }
    }

    /// The earliest time at which the next send may start.
    pub open spec fn deadline(self) -> int {
        self.last_send + self.interval
    }

    /// The held message as a sequence of no or one message.
    pub open spec fn held(self) -> Seq<Seq<u8>> {
        match self.slot {
            Some(message) => seq![message],
            None => Seq::empty(),
        }
    }

    /// What there is to do at time `now`.
    pub open spec fn decision(self, now: int) -> Action {
        if self.slot is None {
            Action::Receive
        } else if now >= self.deadline() {
            Action::Send
        } else {
            Action::Sleep { nanos: (self.deadline() - now) as u64 }
        }
    }

    /// Whether `event` can be reported in this state: a message arrives only
    /// at an idle relay, and a send ends only where a message is held.
    pub open spec fn accepts(self, event: Event) -> bool {
        match event {
            Event::Arrived(_) => self.slot is None,
            Event::Sent { .. } => self.slot is Some,
            Event::Closed | Event::Woke => true,
        }
    }

    /// The state after `event` has been reported at time `now`.
    ///
    /// A send that has been attempted frees the slot and restarts the
    /// interval, whether or not it delivered the message.
    pub open spec fn after(self, event: Event, now: int) -> RelayView {
        match event {
            Event::Arrived(message) => RelayView { slot: Some(message@), ..self },
            Event::Sent { .. } => RelayView { last_send: now, slot: None, ..self },
            Event::Closed | Event::Woke => self,
        }
    }

    /// The answer to `event` reported at time `now`: the closing of the
    /// channel is the one condition that ends the relay; every other event is
    /// answered with what the new state calls for.
    pub open spec fn response(self, event: Event, now: int) -> Result<Action, RelayError> {
        if event is Closed {
            Err(RelayError::ChannelClosed)
        } else {
            Ok(self.after(event, now).decision(now))
        }
    }
}

/// The relay: the time of the last send, and room for one message.
#[derive(Debug)]
pub struct PacedRelay {
    interval: u64,
    last_send: u64,
    slot: Option<Message>,
}

impl View for PacedRelay {
    type V = RelayView;

    closed spec fn view(&self) -> RelayView {
        RelayView {
            interval: self.interval as int,
            last_send: self.last_send as int,
            slot: match self.slot {
                Some(message) => Some(message@),
                None => None,
            },
        }
    }
}

impl PacedRelay {
    /// The deadline of a relay is always a time that the clock can show.
    #[verifier::type_invariant]
    spec fn deadline_fits(self) -> bool {
        self.last_send + self.interval <= u64::MAX
    }

    /// An idle relay created at time `now`. The first send may start one
    /// interval after `now`.
    pub fn new(interval: u64, now: u64) -> (relay: PacedRelay)
        requires
            now + interval <= u64::MAX,
        ensures
            relay@ == RelayView::fresh(interval as int, now as int),
    {
        PacedRelay { interval, last_send: now, slot: None }
    }

    /// What there is to do at time `now`: receive when idle; otherwise send if
    /// the deadline has come, and sleep for exactly the time left if not.
    pub fn action(&self, now: u64) -> (action: Action)
        ensures
            action == self@.decision(now as int),
            action matches Action::Sleep { nanos } ==> nanos == self@.deadline() - now,
    {
        proof {
            use_type_invariant(self);
        }
        if self.slot.is_none() {
            Action::Receive
        } else {
            let deadline: u64 = self.last_send + self.interval;
            if now >= deadline {
                Action::Send
            } else {
                Action::Sleep { nanos: deadline - now }
            }
        }
    }

    /// Takes in what has happened at time `now` and answers with what to do
    /// next.
    ///
    /// A message that has arrived is put into the slot. A send that has been
    /// attempted frees the slot and makes `now` the time of the last send,
    /// whether or not the message was delivered: a failed send is not tried
    /// again. The end of a sleep changes nothing. Each of these is answered
    /// with what the new state calls for at `now`, as [`PacedRelay::action`]
    /// gives it. The closing of the channel changes nothing either, and is
    /// answered with [`RelayError::ChannelClosed`].
    ///
    /// A message can be reported only while the relay is idle, and the end of
    /// a send only while it holds a message. The end of a send must leave room
    /// on the clock for the next deadline.
    pub fn step(&mut self, event: Event, now: u64) -> (next: Result<Action, RelayError>)
        requires
            old(self)@.accepts(event),
            event is Sent ==> now + old(self)@.interval <= u64::MAX,
        ensures
            final(self)@ == old(self)@.after(event, now as int),
            next == old(self)@.response(event, now as int),
            next matches Ok(Action::Sleep { nanos }) ==> nanos == final(self)@.deadline() - now,
    {
        proof {
            use_type_invariant(&*self);
        }
        match event {
            Event::Arrived(message) => {
                self.slot = Some(message);
            },
            Event::Closed => {
                return Err(RelayError::ChannelClosed);
            },
            Event::Woke => {},
            Event::Sent { delivered: _ } => {
                self.last_send = now;
                self.slot = None;
            },
        }
        Ok(self.action(now))
    }

    /// Whether `event` can be reported to the relay as it is now: a message
    /// only while it is idle, the end of a send only while it holds a message,
    /// and everything else at any time.
    pub fn accepts(&self, event: &Event) -> (accepted: bool)
        ensures
            accepted == self@.accepts(*event),
    {
        match event {
            Event::Arrived(_) => self.slot.is_none(),
            Event::Sent { .. } => self.slot.is_some(),
            Event::Closed => true,
            Event::Woke => true,
        }
    }

    /// The message that awaits its deadline, if any.
    pub fn pending(&self) -> (held: Option<&Message>)
        ensures
            held is Some <==> self@.slot is Some,
            held matches Some(message) ==> self@.slot == Some(message@),
    {
        self.slot.as_ref()
    }

    /// The minimum time between the end of one send and the start of the next.
    pub fn interval(&self) -> (interval: u64)
        ensures
            interval == self@.interval,
    {
        self.interval
    }

    /// The time at which the most recent send attempt ended, or at which the
    /// relay was created if there was none yet.
    pub fn last_send(&self) -> (last_send: u64)
        ensures
            last_send == self@.last_send,
    {
        self.last_send
    }

    /// The earliest time at which the next send may start.
    pub fn deadline(&self) -> (deadline: u64)
        ensures
            deadline == self@.deadline(),
    {
        proof {
            use_type_invariant(self);
        }
        self.last_send + self.interval
    }
}

/// One sleep is enough.
///
/// Where a message is held before its deadline, at a time and with a
/// deadline that the clock can show, the relay asks for a sleep of exactly
/// the time that is left, which is more than nothing. When a sleep of that
/// length is over, the relay asks for the send: it never has to look at the
/// clock a third time for one message.
pub proof fn a_sleep_ends_at_the_deadline(relay: RelayView, now: int)
    requires
        relay.slot is Some,
        0 <= now < relay.deadline() <= u64::MAX,
    ensures
        relay.decision(now) matches Action::Sleep { nanos } && nanos > 0 && now + nanos
            == relay.deadline() && relay.decision(now + nanos) == Action::Send,
{
}

} // verus!
