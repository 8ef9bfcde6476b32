use vstd::prelude::*;

use crate::wire::{ODiskMessage, OProtocolMessage, OSelectorMessage};

verus! {

/// Most messages that may sit unacknowledged between the selection
/// layer and one wire connection.
pub const MAX_INCOMING_MESSAGES: usize = 8;

/// A bounded sender decorated with an explicit credit counter: a send
/// consumes one credit, an acknowledgement after a flush returns one.
/// No more than `capacity` messages are ever in flight.
pub struct SplitSender {
    pub capacity: usize,
    pub in_flight: usize,
    pub queue: Vec<OSelectorMessage>,
}

impl SplitSender {
    /// The credit discipline: in-flight messages never exceed the
    /// capacity, and only in-flight messages can still be queued.
    pub open spec fn wf(self) -> bool {
        &&& self.in_flight <= self.capacity
        &&& self.queue@.len() <= self.in_flight
    }

    pub fn new(capacity: usize) -> (r: SplitSender)
        ensures
            r.wf(),
            r.capacity == capacity,
            r.in_flight == 0,
            r.queue@.len() == 0,
    {
        SplitSender { capacity, in_flight: 0, queue: Vec::new() }
    }

    /// Enqueues the message if a credit is free, else hands it back.
    pub fn try_send(&mut self, msg: OSelectorMessage) -> (r: Option<OSelectorMessage>)
        requires
            old(self).wf(),
        ensures
            final(self).wf(),
            final(self).capacity == old(self).capacity,
            old(self).in_flight < old(self).capacity ==> (r is None) && final(self).queue@ == old(
                self,
            ).queue@.push(msg) && final(self).in_flight == old(self).in_flight + 1,
            old(self).in_flight >= old(self).capacity ==> r == Some(msg) && final(self).queue == old(
                self,
            ).queue && final(self).in_flight == old(self).in_flight,
    {
        if self.in_flight < self.capacity {
            self.in_flight = self.in_flight + 1;
            self.queue.push(msg);
            None
        } else {
            Some(msg)
        }
    }

    /// Takes the oldest queued message, if any, for processing.
    pub fn take_next(&mut self) -> (r: Option<OSelectorMessage>)
        requires
            old(self).wf(),
        ensures
            final(self).wf(),
            final(self).capacity == old(self).capacity,
            final(self).in_flight == old(self).in_flight,
            old(self).queue@.len() == 0 ==> (r is None) && final(self).queue == old(self).queue,
            old(self).queue@.len() > 0 ==> r == Some(old(self).queue@[0]) && final(self).queue@
                == old(self).queue@.subrange(1, old(self).queue@.len() as int),
    {
        if self.queue.len() == 0 {
            None
        } else {
            Some(self.queue.remove(0))
        }
    }

    /// Returns one credit; called when a write has been flushed.
    pub fn ack(&mut self)
        requires
            old(self).wf(),
            old(self).in_flight >= 1,
            old(self).queue@.len() < old(self).in_flight,
        ensures
            final(self).wf(),
            final(self).capacity == old(self).capacity,
            final(self).queue == old(self).queue,
            final(self).in_flight == old(self).in_flight - 1,
    {
        self.in_flight = self.in_flight - 1;
    }
}

/// The in-flight message count never exceeds the sender's capacity.
pub proof fn lemma_in_flight_bounded(s: SplitSender)
    requires
        s.wf(),
    ensures
        s.in_flight <= s.capacity,
{
}

/// A message into the selection layer.
pub enum ISelectorMessage {
    /// Message from the disk manager to the piece selector.
    DiskManager(ODiskMessage),
    /// Message from the protocol layer to the piece selector. The
    /// token pins the message to one connection's channel.
    Protocol(u64, OProtocolMessage),
}

/// The sending half handed to one wire connection: it tags each
/// protocol message with the connection's token before forwarding it,
/// and wakes the selector's reactor on every send.
pub struct SelectorSender {
    pub id: u64,
    pub queue: Vec<ISelectorMessage>,
    pub wakeups: u64,
}

impl SelectorSender {
    /// Forwards one protocol message, tagged with this connection's
    /// token, and wakes the selector.
    pub fn try_send(&mut self, data: OProtocolMessage)
        requires
            old(self).wakeups < 0xFFFF_FFFF_FFFF_FFFF,
        ensures
            final(self).id == old(self).id,
            final(self).queue@ == old(self).queue@.push(
                ISelectorMessage::Protocol(old(self).id, data),
            ),
            final(self).wakeups == old(self).wakeups + 1,
    {
        let id = self.id;
        self.queue.push(ISelectorMessage::Protocol(id, data));
        self.wakeups = self.wakeups + 1;
    }

    /// Forwards one disk event and wakes the selector.
    pub fn send_disk(&mut self, data: ODiskMessage)
        requires
            old(self).wakeups < 0xFFFF_FFFF_FFFF_FFFF,
        ensures
            final(self).id == old(self).id,
            final(self).queue@ == old(self).queue@.push(ISelectorMessage::DiskManager(data)),
            final(self).wakeups == old(self).wakeups + 1,
    {
        self.queue.push(ISelectorMessage::DiskManager(data));
        self.wakeups = self.wakeups + 1;
    }
}

/// The piece-selection strategy's registration surface: it hands each
/// connection a tagged sender into the selector.
pub struct PieceSelector;

impl PieceSelector {
    /// Registers one connection under its token and returns the sender
    /// that connection will use.
    pub fn register(&mut self, id: u64) -> (s: SelectorSender)
        ensures
            s.id == id,
            s.queue@.len() == 0,
            s.wakeups == 0,
    {
        SelectorSender { id, queue: Vec::new(), wakeups: 0 }
    }
}

} // verus!
