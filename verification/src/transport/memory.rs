//! In-memory transport: what is sent is queued and handed back by the next
//! receive.

use super::{bytes_of, drain_queue, SyncTransport, TransportError};
use std::collections::VecDeque;
use vstd::prelude::*;
use vstd::slice::slice_to_vec;

verus! {

/// In-memory transport for testing and local loops.
#[derive(Debug)]
pub struct InMemoryTransport {
    connected: bool,
    message_queue: VecDeque<Vec<u8>>,
}

impl InMemoryTransport {
    pub closed spec fn spec_is_connected(&self) -> bool {
        self.connected
    }

    /// The messages waiting to be received, oldest first.
    pub closed spec fn queue(&self) -> Seq<Seq<u8>> {
        bytes_of(self.message_queue@)
    }

    pub fn new() -> (r: Self)
        ensures
            r.spec_is_connected(),
            r.queue() == Seq::<Seq<u8>>::empty(),
    {
        let r = InMemoryTransport { connected: true, message_queue: VecDeque::new() };
        assert(r.queue() =~= Seq::<Seq<u8>>::empty());
        r
    }

    pub fn with_connection_status(connected: bool) -> (r: Self)
        ensures
            r.spec_is_connected() == connected,
            r.queue() == Seq::<Seq<u8>>::empty(),
    {
        let r = InMemoryTransport { connected, message_queue: VecDeque::new() };
        assert(r.queue() =~= Seq::<Seq<u8>>::empty());
        r
    }

    /// Queues the data; refused when not connected.
    pub fn send_data(&mut self, data: &[u8]) -> (r: Result<(), TransportError>)
        ensures
            final(self).spec_is_connected() == old(self).spec_is_connected(),
            old(self).spec_is_connected() ==> r is Ok && final(self).queue() == old(self).queue().push(
                data@,
            ),
            !old(self).spec_is_connected() ==> (r matches Err(TransportError::NotConnected)
                && final(self).queue() == old(self).queue()),
    {
        if !self.connected {
            return Err(TransportError::NotConnected);
        }
        let v = slice_to_vec(data);
        self.message_queue.push_back(v);
        assert(self.queue() =~= old(self).queue().push(data@));
        Ok(())
    }

    /// Hands back every queued message, oldest first, and empties the queue;
    /// refused when not connected.
    pub fn receive_data(&mut self) -> (r: Result<Vec<Vec<u8>>, TransportError>)
        ensures
            final(self).spec_is_connected() == old(self).spec_is_connected(),
            old(self).spec_is_connected() ==> (r matches Ok(msgs) && bytes_of(msgs@) == old(self).queue() && final(self).queue() == Seq::<Seq<u8>>::empty()),
            !old(self).spec_is_connected() ==> (r matches Err(TransportError::NotConnected)
                && final(self).queue() == old(self).queue()),
    {
        if !self.connected {
            return Err(TransportError::NotConnected);
        }
        let out = drain_queue(&mut self.message_queue);
        assert(self.queue() =~= Seq::<Seq<u8>>::empty());
        Ok(out)
    }
}

impl SyncTransport for InMemoryTransport {
    open spec fn spec_connected(&self) -> bool {
        self.spec_is_connected()
    }

    open spec fn send_outcome(&self, data: Seq<u8>, after: Self, r: Result<(), TransportError>) -> bool {
        &&& after.spec_is_connected() == self.spec_is_connected()
        &&& self.spec_is_connected() ==> r is Ok && after.queue() == self.queue().push(data)
        &&& !self.spec_is_connected() ==> (r matches Err(TransportError::NotConnected) && after.queue() == self.queue())
    }

    open spec fn receive_outcome(&self, after: Self, r: Result<Vec<Vec<u8>>, TransportError>) -> bool {
        &&& after.spec_is_connected() == self.spec_is_connected()
        &&& self.spec_is_connected() ==> (r matches Ok(msgs) && bytes_of(msgs@) == self.queue()
            && after.queue() == Seq::<Seq<u8>>::empty())
        &&& !self.spec_is_connected() ==> (r matches Err(TransportError::NotConnected) && after.queue() == self.queue())
    }

    fn send(&mut self, data: &[u8]) -> (r: Result<(), TransportError>)
        ensures
            final(self).spec_is_connected() == old(self).spec_is_connected(),
            old(self).spec_is_connected() ==> r is Ok && final(self).queue() == old(self).queue().push(
                data@,
            ),
            !old(self).spec_is_connected() ==> (r matches Err(TransportError::NotConnected)
                && final(self).queue() == old(self).queue()),
    {
        self.send_data(data)
    }

    fn receive(&mut self) -> (r: Result<Vec<Vec<u8>>, TransportError>)
        ensures
            final(self).spec_is_connected() == old(self).spec_is_connected(),
            old(self).spec_is_connected() ==> (r matches Ok(msgs) && bytes_of(msgs@) == old(self).queue() && final(self).queue() == Seq::<Seq<u8>>::empty()),
            !old(self).spec_is_connected() ==> (r matches Err(TransportError::NotConnected)
                && final(self).queue() == old(self).queue()),
    {
        self.receive_data()
    }

    fn is_connected(&self) -> (r: bool) {
        self.connected
    }
}

impl Default for InMemoryTransport {
    fn default() -> (r: Self)
        ensures
            r.spec_is_connected(),
            r.queue() == Seq::<Seq<u8>>::empty(),
    {
        Self::new()
    }
}

/// The queue after sending each of `ms` in turn, one `send_data` at a time.
pub open spec fn queue_after_sends(q: Seq<Seq<u8>>, ms: Seq<Seq<u8>>) -> Seq<Seq<u8>>
    decreases ms.len(),
{
    if ms.len() == 0 {
        q
    } else {
        queue_after_sends(q, ms.drop_last()).push(ms.last())
    }
}

/// On a connected in-memory transport, messages come out of the next
/// receive in the order they were sent, after those already waiting.
pub proof fn law_in_memory_fifo(q: Seq<Seq<u8>>, ms: Seq<Seq<u8>>)
    ensures
        queue_after_sends(q, ms) == q + ms,
    decreases ms.len(),
{
    if ms.len() > 0 {
        law_in_memory_fifo(q, ms.drop_last());
        assert(q + ms =~= (q + ms.drop_last()).push(ms.last()));
    } else {
        assert(q + ms =~= q);
    }
}

} // verus!
