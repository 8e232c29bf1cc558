//! The typed, ordered, unbounded handoff from the worker to the consumer,
//! modelled as a queue of messages: everything sent is delivered once, in
//! emission order, when the consumer drains.

use crate::messages::{Message, MessageV};
use vstd::prelude::*;

verus! {

/// A queue of worker messages awaiting the consumer.
pub struct MessageQueue {
    items: Vec<Message>,
}

impl View for MessageQueue {
    type V = Seq<MessageV>;

    closed spec fn view(&self) -> Seq<MessageV> {
        self.items@.map_values(|m: Message| m@)
    }
}

impl MessageQueue {
    /// An empty queue.
    pub fn new() -> (r: MessageQueue)
        ensures
            r@ == Seq::<MessageV>::empty(),
    {
        let r = MessageQueue { items: Vec::new() };
        proof {
            assert(r@ =~= Seq::<MessageV>::empty());
        }
        r
    }

    /// How many messages are waiting.
    pub fn len(&self) -> (r: usize)
        ensures
            r == self@.len(),
    {
        self.items.len()
    }

    /// Enqueue one message at the back.
    pub fn send(&mut self, m: Message)
        ensures
            final(self)@ == old(self)@.push(m@),
    {
        self.items.push(m);
        proof {
            assert(self@ =~~= old(self)@.push(m@));
        }
    }

    /// Enqueue a batch of messages in order.
    pub fn send_all(&mut self, msgs: Vec<Message>)
        ensures
            final(self)@ == old(self)@ + msgs@.map_values(|m: Message| m@),
    {
        let mut msgs = msgs;
        let ghost mv = msgs@.map_values(|m: Message| m@);
        self.items.append(&mut msgs);
        proof {
            assert(self@ =~~= old(self)@ + mv);
        }
    }

    /// Hand every waiting message to the consumer, oldest first, leaving
    /// the queue empty.
    pub fn drain(&mut self) -> (r: Vec<Message>)
        ensures
            r@.map_values(|m: Message| m@) == old(self)@,
            final(self)@ == Seq::<MessageV>::empty(),
    {
        let mut out: Vec<Message> = Vec::new();
        core::mem::swap(&mut out, &mut self.items);
        proof {
            assert(self@ =~= Seq::<MessageV>::empty());
        }
        out
    }
}

} // verus!
