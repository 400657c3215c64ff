//! The bridge between the editor and the gossip network: a queue of
//! messages going out to the network and a queue of messages that came in,
//! each first in, first out.

use std::collections::VecDeque;
use vstd::prelude::*;

use crate::ids::NodeId;
use crate::networking::error::NetworkingError;
use crate::networking::messages::VersionedMessage;

verus! {

/// The two message queues of a node, and its identity.
#[derive(Debug)]
pub struct GossipBridge {
    outgoing: VecDeque<VersionedMessage>,
    incoming: VecDeque<VersionedMessage>,
    node_id: NodeId,
}

impl View for GossipBridge {
    /// The outgoing and the incoming messages, oldest first.
    type V = (Seq<VersionedMessage>, Seq<VersionedMessage>);

    closed spec fn view(&self) -> (Seq<VersionedMessage>, Seq<VersionedMessage>) {
        (self.outgoing@, self.incoming@)
    }
}

impl GossipBridge {
    /// Our node ID.
    pub closed spec fn node(&self) -> NodeId {
        self.node_id
    }

    /// A bridge with both queues empty.
    pub fn new(node_id: NodeId) -> (b: Self)
        ensures
            b.node() == node_id,
            b@ == (Seq::<VersionedMessage>::empty(), Seq::<VersionedMessage>::empty()),
    {
        GossipBridge { outgoing: VecDeque::new(), incoming: VecDeque::new(), node_id }
    }

    /// Queue a message for the network.
    pub fn send(&mut self, message: VersionedMessage) -> (r: Result<(), NetworkingError>)
        ensures
            r is Ok,
            final(self).node() == old(self).node(),
            final(self)@ == (old(self)@.0.push(message), old(self)@.1),
    {
        self.outgoing.push_back(message);
        Ok(())
    }

    /// The oldest message that came in, if any.
    pub fn try_recv(&mut self) -> (r: Option<VersionedMessage>)
        ensures
            final(self).node() == old(self).node(),
            final(self)@.0 == old(self)@.0,
            old(self)@.1.len() == 0 ==> r is None && final(self)@.1 == old(self)@.1,
            old(self)@.1.len() > 0 ==> r == Some(old(self)@.1[0]) && final(self)@.1 == old(self)@.1.drop_first(),
    {
        let r = self.incoming.pop_front();
        proof {
            if old(self)@.1.len() > 0 {
                assert(self@.1 =~= old(self)@.1.drop_first());
            }
        }
        r
    }

    /// All the messages that came in, oldest first; the incoming queue is
    /// left empty.
    pub fn drain_incoming(&mut self) -> (r: Vec<VersionedMessage>)
        ensures
            final(self).node() == old(self).node(),
            r@ == old(self)@.1,
            final(self)@ == (old(self)@.0, Seq::<VersionedMessage>::empty()),
    {
        let mut out: Vec<VersionedMessage> = Vec::new();
        let ghost all = self.incoming@;
        while self.incoming.len() > 0
            invariant
                self.node_id == old(self).node_id,
                self.outgoing@ == old(self).outgoing@,
                all == old(self).incoming@,
                out@ + self.incoming@ == all,
            decreases self.incoming@.len(),
        {
            let ghost before = self.incoming@;
            match self.incoming.pop_front() {
                Some(m) => {
                    out.push(m);
                    assert(out@ + self.incoming@ =~= all);
                },
                None => {},
            }
        }
        assert(out@ =~= all);
        out
    }

    /// The oldest message waiting to go out, if any.
    pub fn try_recv_outgoing(&mut self) -> (r: Option<VersionedMessage>)
        ensures
            final(self).node() == old(self).node(),
            final(self)@.1 == old(self)@.1,
            old(self)@.0.len() == 0 ==> r is None && final(self)@.0 == old(self)@.0,
            old(self)@.0.len() > 0 ==> r == Some(old(self)@.0[0]) && final(self)@.0 == old(self)@.0.drop_first(),
    {
        let r = self.outgoing.pop_front();
        proof {
            if old(self)@.0.len() > 0 {
                assert(self@.0 =~= old(self)@.0.drop_first());
            }
        }
        r
    }

    /// Queue a message that came in from the network.
    pub fn push_incoming(&mut self, message: VersionedMessage) -> (r: Result<(), NetworkingError>)
        ensures
            r is Ok,
            final(self).node() == old(self).node(),
            final(self)@ == (old(self)@.0, old(self)@.1.push(message)),
    {
        self.incoming.push_back(message);
        Ok(())
    }

    /// Our node ID.
    pub fn node_id(&self) -> (n: NodeId)
        ensures
            n == self.node(),
    {
        self.node_id
    }
}

/// A new gossip bridge for a node.
pub fn init_gossip_bridge(node_id: NodeId) -> (b: GossipBridge)
    ensures
        b.node() == node_id,
        b@ == (Seq::<VersionedMessage>::empty(), Seq::<VersionedMessage>::empty()),
{
    GossipBridge::new(node_id)
}

/// Messages come out of the bridge in the order they went in: a message
/// queued in an empty queue is the next one received.
pub proof fn lemma_fifo(queue: Seq<VersionedMessage>, m: VersionedMessage)
    ensures
        queue.len() > 0 ==> queue.push(m)[0] == queue[0] && queue.push(m).drop_first() == queue.drop_first().push(m),
        queue.len() == 0 ==> queue.push(m)[0] == m && queue.push(m).drop_first() == queue,
{
    if queue.len() > 0 {
        assert(queue.push(m).drop_first() =~= queue.drop_first().push(m));
    } else {
        assert(queue.push(m).drop_first() =~= queue);
    }
}

} // verus!
