//! The queue of messages that wait to be sent to peers.
//!
//! Messages leave in the order in which they were put in. A caller that
//! shares the queue between threads keeps it behind a lock, and tells its
//! sender that there is something to send once the lock is released.
use crate::ids::NodeId;
use crate::lsps0::msgs::{LSPSMessage, LSPSMessageView};
use std::collections::VecDeque;
use vstd::prelude::*;

verus! {

/// The contents of the given messages, each with the peer it is for.
pub open spec fn message_views(messages: Seq<(NodeId, LSPSMessage)>) -> Seq<
    (NodeId, LSPSMessageView),
> {
    messages.map_values(|entry: (NodeId, LSPSMessage)| (entry.0, entry.1@))
}

/// A first-in, first-out queue of outbound messages.
pub struct MessageQueue {
    queue: VecDeque<(NodeId, LSPSMessage)>,
}

impl View for MessageQueue {
    type V = Seq<(NodeId, LSPSMessageView)>;

    closed spec fn view(&self) -> Seq<(NodeId, LSPSMessageView)> {
        message_views(self.queue@)
    }
}

impl MessageQueue {
    /// An empty queue.
    pub fn new() -> (queue: MessageQueue)
        ensures
            queue@ == Seq::<(NodeId, LSPSMessageView)>::empty(),
    {
        let queue = MessageQueue { queue: VecDeque::new() };
        assert(queue@ =~= Seq::<(NodeId, LSPSMessageView)>::empty());
        queue
    }

    /// The number of messages in the queue.
    pub fn len(&self) -> (count: usize)
        ensures
            count == self@.len(),
    {
        self.queue.len()
    }

    /// Takes all messages out of the queue, in their order.
    pub fn get_and_clear_pending_msgs(&mut self) -> (messages: Vec<(NodeId, LSPSMessage)>)
        ensures
            message_views(messages@) == old(self)@,
            final(self)@.len() == 0,
    {
        let mut messages: Vec<(NodeId, LSPSMessage)> = Vec::new();
        loop
            invariant
                message_views(messages@) + self@ == old(self)@,
            ensures
                self@.len() == 0,
            decreases self@.len(),
        {
            match self.queue.pop_front() {
                Some(entry) => {
                    let ghost before = messages@;
                    messages.push(entry);
                    assert(message_views(messages@) + self@ =~= old(self)@) by {
                        assert(message_views(messages@) =~= message_views(before).push(
                            (entry.0, entry.1@),
                        ));
                    }
                },
                None => {
                    break ;
                },
            }
        }
        assert(message_views(messages@) =~= old(self)@);
        messages
    }

    /// Puts a message for the given peer at the end of the queue.
    pub fn enqueue(&mut self, counterparty_node_id: &NodeId, msg: LSPSMessage)
        ensures
            final(self)@ == old(self)@.push((*counterparty_node_id, msg@)),
    {
        self.queue.push_back((*counterparty_node_id, msg));
        assert(self@ =~= old(self)@.push((*counterparty_node_id, msg@)));
    }
}

} // verus!
