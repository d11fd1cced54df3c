//! Non-blocking emission of trace events over a bounded `crossbeam_channel` channel.

use crossbeam_channel::{Receiver, Sender, TrySendError};
use vstd::prelude::*;
use crate::common::SyscallTraceEvent;

verus! {

pub const CHANNEL_CAPACITY: usize = 65_536;

#[verifier::external_type_specification]
#[verifier::external_body]
#[verifier::reject_recursive_types(T)]
pub struct ExSender<T>(Sender<T>);

#[verifier::external_type_specification]
#[verifier::external_body]
#[verifier::reject_recursive_types(T)]
pub struct ExReceiver<T>(Receiver<T>);

/// What became of one attempt to send an event.
#[derive(Debug, Clone, Copy, PartialEq, Eq, Structural)]
pub enum SendOutcome {
    Sent,
    /// The channel was full; the event was dropped.
    Full,
    /// Every receiver is gone; the event was dropped.
    Disconnected,
}

/// The capacity a sender reports (`Sender::capacity`): `Some(n)` for a channel bounded at `n`.
pub uninterp spec fn sender_capacity(s: Sender<SyscallTraceEvent>) -> Option<usize>;

/// The capacity a receiver reports (`Receiver::capacity`).
pub uninterp spec fn receiver_capacity(r: Receiver<SyscallTraceEvent>) -> Option<usize>;

/// The events a channel has accepted from this sender, oldest first.
pub uninterp spec fn accepted(s: Sender<SyscallTraceEvent>) -> Seq<SyscallTraceEvent>;

/// Calls `crossbeam_channel::bounded` with capacity `cap`: both ends belong to a new,
/// empty channel bounded at `cap`, as their `capacity()` reports.
#[verifier::external_body]
fn bounded_channel(cap: usize) -> (r: (Sender<SyscallTraceEvent>, Receiver<SyscallTraceEvent>))
    ensures
        sender_capacity(r.0) == Some(cap),
        receiver_capacity(r.1) == Some(cap),
        accepted(r.0) == Seq::<SyscallTraceEvent>::empty(),
{
    crossbeam_channel::bounded(cap)
}

/// Calls `Sender::try_send`, telling its outcomes apart: on `Sent` the channel has accepted
/// the event, otherwise (full, or every receiver gone) the event is handed back and the
/// channel holds nothing new. Which outcome comes depends on the receiving side at the
/// time of the call, so nothing is stated of that.
#[verifier::external_body]
fn try_send_event(sender: &mut Sender<SyscallTraceEvent>, event: SyscallTraceEvent) -> (o: SendOutcome)
    ensures
        accepted(*final(sender)) == if o == SendOutcome::Sent {
            accepted(*old(sender)).push(event)
        } else {
            accepted(*old(sender))
        },
        sender_capacity(*final(sender)) == sender_capacity(*old(sender)),
{
    match sender.try_send(event) {
        Ok(()) => SendOutcome::Sent,
        Err(TrySendError::Full(_)) => SendOutcome::Full,
        Err(TrySendError::Disconnected(_)) => SendOutcome::Disconnected,
    }
}

pub struct TraceEmitter {
    sender: Sender<SyscallTraceEvent>,
    dropped: u64,
    sends: Ghost<Seq<(SyscallTraceEvent, SendOutcome)>>,
}

impl TraceEmitter {
    /// Events dropped because the channel was full (a wrapping counter).
    pub closed spec fn spec_dropped(&self) -> u64 {
        self.dropped
    }

    /// The channel end this emitter sends on.
    pub closed spec fn spec_sender(&self) -> Sender<SyscallTraceEvent> {
        self.sender
    }

    /// Every event handed to the channel so far, oldest first, with the outcome of its send.
    pub closed spec fn spec_sends(&self) -> Seq<(SyscallTraceEvent, SendOutcome)> {
        self.sends@
    }

    /// A new emitter and the receiving end of its channel: a fresh channel bounded at
    /// `CHANNEL_CAPACITY`.
    pub fn new() -> (r: (Self, Receiver<SyscallTraceEvent>))
        ensures
            r.0.spec_dropped() == 0,
            r.0.spec_sends() == Seq::<(SyscallTraceEvent, SendOutcome)>::empty(),
            sender_capacity(r.0.spec_sender()) == Some(CHANNEL_CAPACITY),
            accepted(r.0.spec_sender()) == Seq::<SyscallTraceEvent>::empty(),
            receiver_capacity(r.1) == Some(CHANNEL_CAPACITY),
    {
        let (sender, receiver) = bounded_channel(CHANNEL_CAPACITY);
        (TraceEmitter { sender, dropped: 0, sends: Ghost(Seq::empty()) }, receiver)
    }

    /// An emitter that sends on an existing channel.
    pub fn from_sender(sender: Sender<SyscallTraceEvent>) -> (e: Self)
        ensures
            e.spec_dropped() == 0,
            e.spec_sends() == Seq::<(SyscallTraceEvent, SendOutcome)>::empty(),
            e.spec_sender() == sender,
    {
        TraceEmitter { sender, dropped: 0, sends: Ghost(Seq::empty()) }
    }

    /// Accounts for the outcome of one send: a full channel counts one dropped event.
    pub fn note_outcome(&mut self, outcome: SendOutcome)
        ensures
            final(self).spec_dropped() == if outcome == SendOutcome::Full {
                (old(self).spec_dropped() + 1) % 0x1_0000_0000_0000_0000
            } else {
                old(self).spec_dropped() as int
            },
            final(self).spec_sends() == old(self).spec_sends(),
            final(self).spec_sender() == old(self).spec_sender(),
    {
        if outcome == SendOutcome::Full {
            self.dropped = self.dropped.wrapping_add(1);
        }
    }

    /// Emit a trace event. Non-blocking: the event is handed to the channel once; the
    /// channel takes it when the send succeeds, and it counts as dropped when the channel
    /// was full.
    pub fn emit(&mut self, event: SyscallTraceEvent)
        ensures
            final(self).spec_sends().len() == old(self).spec_sends().len() + 1,
            final(self).spec_sends().drop_last() == old(self).spec_sends(),
            final(self).spec_sends().last().0 == event,
            final(self).spec_dropped() == if final(self).spec_sends().last().1 == SendOutcome::Full {
                (old(self).spec_dropped() + 1) % 0x1_0000_0000_0000_0000
            } else {
                old(self).spec_dropped() as int
            },
            accepted(final(self).spec_sender()) == if final(self).spec_sends().last().1 == SendOutcome::Sent {
                accepted(old(self).spec_sender()).push(event)
            } else {
                accepted(old(self).spec_sender())
            },
            sender_capacity(final(self).spec_sender()) == sender_capacity(old(self).spec_sender()),
    {
        let outcome = try_send_event(&mut self.sender, event);
        self.note_outcome(outcome);
        self.sends = Ghost(self.sends@.push((event, outcome)));
        assert(self.sends@.drop_last() =~= old(self).sends@);
    }

    pub fn dropped_count(&self) -> (n: u64)
        ensures
            n == self.spec_dropped(),
    {
        self.dropped
    }
}

} // verus!
