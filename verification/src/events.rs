//! The half-duplex event-stream transport's server-side state: each peer
//! gets an opaque client id and a private outbound queue, and one "current"
//! peer receives what the engine sends.

use vstd::prelude::*;
use crate::error::MCPError;

verus! {

/// The server-side registry of event-stream peers.
pub struct EventStreamHub {
    pub clients: Vec<(u64, Vec<String>)>,
    pub next_client_id: u64,
    pub current: Option<u64>,
}

impl EventStreamHub {
    /// Client ids are pairwise distinct, and all below the counter.
    pub open spec fn inv(self) -> bool {
        &&& forall|i: int, j: int|
            0 <= i < j < self.clients@.len() ==> (#[trigger] self.clients@[i]).0 != (
            #[trigger] self.clients@[j]).0
        &&& forall|i: int|
            0 <= i < self.clients@.len() ==> (#[trigger] self.clients@[i]).0
                < self.next_client_id
    }

    /// An empty hub.
    pub fn new() -> (h: Self)
        ensures
            h.clients@.len() == 0,
            h.next_client_id == 0u64,
            h.current is None,
            h.inv(),
    {
        EventStreamHub { clients: Vec::new(), next_client_id: 0, current: None }
    }

    /// Register a connecting peer: it gets a fresh id, never handed out
    /// before, and an empty queue.
    pub fn register_client(&mut self) -> (id: u64)
        requires
            old(self).inv(),
            old(self).next_client_id < 0xffff_ffff_ffff_ffff,
        ensures
            final(self).inv(),
            id == old(self).next_client_id,
            final(self).next_client_id == old(self).next_client_id + 1,
            final(self).clients@.len() == old(self).clients@.len() + 1,
            final(self).clients@.last().0 == id,
            final(self).clients@.last().1@.len() == 0,
            final(self).clients@.drop_last() == old(self).clients@,
            final(self).current == old(self).current,
    {
        let id = self.next_client_id;
        self.next_client_id = self.next_client_id + 1;
        self.clients.push((id, Vec::new()));
        proof {
            assert(final(self).clients@.drop_last() =~= old(self).clients@);
        }
        id
    }

    /// Make one peer the current recipient of outbound messages.
    pub fn set_current(&mut self, id: u64)
        ensures
            final(self).current == Some(id),
            final(self).clients == old(self).clients,
            final(self).next_client_id == old(self).next_client_id,
            old(self).inv() ==> final(self).inv(),
    {
        self.current = Some(id);
    }

    /// The position of a client id.
    spec fn index_of(self, id: u64) -> int {
        choose|i: int| 0 <= i < self.clients@.len() && self.clients@[i].0 == id
    }

    /// Whether a client id is registered.
    pub open spec fn registered(self, id: u64) -> bool {
        exists|i: int| 0 <= i < self.clients@.len() && (#[trigger] self.clients@[i]).0 == id
    }

    /// Queue a message for the current peer; fails with `NotConnected`
    /// when no current peer is set or it is not registered.
    pub fn enqueue_for_current(&mut self, message: String) -> (r: Result<(), MCPError>)
        ensures
            final(self).next_client_id == old(self).next_client_id,
            final(self).current == old(self).current,
            r is Ok <==> (old(self).current matches Some(id) && old(self).registered(id)),
            r is Err ==> r == Err::<(), MCPError>(MCPError::NotConnected) && final(self).clients
                == old(self).clients,
            r is Ok ==> (old(self).current matches Some(id) && exists|i: int|
                {
                    &&& 0 <= i < old(self).clients@.len()
                    &&& (#[trigger] old(self).clients@[i]).0 == id
                    &&& final(self).clients@.len() == old(self).clients@.len()
                    &&& (forall|k: int|
                        0 <= k < old(self).clients@.len() && k != i ==> final(self).clients@[k]
                            == old(self).clients@[k])
                    &&& final(self).clients@[i].0 == id
                    &&& final(self).clients@[i].1@ == old(self).clients@[i].1@.push(message)
                }),
            old(self).inv() ==> final(self).inv(),
    {
        let id = match self.current {
            Some(id) => id,
            None => {
                return Err(MCPError::NotConnected);
            }
        };
        let n = self.clients.len();
        let mut i: usize = 0;
        while i < n
            invariant
                n == self.clients.len(),
                i <= n,
                *self == *old(self),
                old(self).current == Some(id),
                forall|k: int| 0 <= k < i ==> (#[trigger] self.clients@[k]).0 != id,
            decreases n - i,
        {
            if self.clients[i].0 == id {
                let ghost before = self.clients@;
                let (cid, mut q) = self.clients.remove(i);
                q.push(message);
                self.clients.insert(i, (cid, q));
                proof {
                    assert(self.clients@ =~= before.update(i as int, self.clients@[i as int]));
                    assert(self.clients@[i as int].1@ == before[i as int].1@.push(message));
                }
                return Ok(());
            }
            i = i + 1;
        }
        Err(MCPError::NotConnected)
    }

    /// Hand the oldest queued message for a peer to its poll, in the order
    /// it was queued.
    pub fn poll(&mut self, id: u64) -> (r: Option<String>)
        ensures
            final(self).next_client_id == old(self).next_client_id,
            final(self).current == old(self).current,
            old(self).inv() ==> final(self).inv(),
            match r {
                Some(msg) => exists|i: int|
                    {
                        &&& 0 <= i < old(self).clients@.len()
                        &&& (#[trigger] old(self).clients@[i]).0 == id
                        &&& old(self).clients@[i].1@.len() > 0
                        &&& msg == old(self).clients@[i].1@.first()
                        &&& final(self).clients@.len() == old(self).clients@.len()
                        &&& (forall|k: int|
                            0 <= k < old(self).clients@.len() && k != i ==> final(self).clients@[k]
                                == old(self).clients@[k])
                        &&& final(self).clients@[i].0 == id
                        &&& final(self).clients@[i].1@ == old(self).clients@[i].1@.drop_first()
                    },
                None => final(self).clients == old(self).clients,
            },
    {
        let n = self.clients.len();
        let mut i: usize = 0;
        while i < n
            invariant
                n == self.clients.len(),
                i <= n,
                *self == *old(self),
            decreases n - i,
        {
            if self.clients[i].0 == id {
                if self.clients[i].1.len() > 0 {
                    let ghost before = self.clients@;
                    let (cid, mut q) = self.clients.remove(i);
                    let msg = q.remove(0);
                    self.clients.insert(i, (cid, q));
                    proof {
                        assert(self.clients@ =~= before.update(i as int, self.clients@[i as int]));
                        assert(self.clients@[i as int].1@ =~= before[i as int].1@.drop_first());
                    }
                    return Some(msg);
                }
                return None;
            }
            i = i + 1;
        }
        None
    }
}

} // verus!
