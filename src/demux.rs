//! Bounded frame queues and the tables that route frames to them by key.

use crate::ethernet::Packet;
use crossbeam_queue::ArrayQueue;
use vstd::prelude::*;

verus! {

#[verifier::external_type_specification]
#[verifier::external_body]
#[verifier::reject_recursive_types(T)]
pub struct ExArrayQueue<T>(ArrayQueue<T>);

/// The frames waiting in a queue, oldest first.
pub uninterp spec fn queued_frames(q: ArrayQueue<Packet>) -> Seq<Packet>;

/// The bound that a queue was made with.
pub uninterp spec fn queue_capacity(q: ArrayQueue<Packet>) -> nat;

/// Relies on `crossbeam_queue::ArrayQueue::new`: an empty queue bounded by
/// `cap`; it panics on a zero capacity.
#[verifier::external_body]
pub(crate) fn new_frame_queue(cap: usize) -> (r: ArrayQueue<Packet>)
    requires
        0 < cap <= 4096,
    ensures
        queued_frames(r) == Seq::<Packet>::empty(),
        queue_capacity(r) == cap,
{
    ArrayQueue::new(cap)
}

/// Relies on `crossbeam_queue::ArrayQueue::push_mut`: the frame goes to the
/// back unless the queue is full, in which case it is handed back.
#[verifier::external_body]
pub(crate) fn push_frame(q: &mut ArrayQueue<Packet>, p: Packet) -> (r: Result<(), Packet>)
    ensures
        queue_capacity(*final(q)) == queue_capacity(*old(q)),
        queued_frames(*old(q)).len() < queue_capacity(*old(q)) ==> (r is Ok && queued_frames(*final(q)) == queued_frames(*old(q)).push(p)),
        queued_frames(*old(q)).len() >= queue_capacity(*old(q)) ==> (r matches Err(e) && e == p && queued_frames(*final(q)) == queued_frames(*old(q))),
{
    q.push_mut(p)
}

/// Relies on `crossbeam_queue::ArrayQueue::pop_mut`: the oldest frame leaves,
/// or nothing when the queue is empty.
#[verifier::external_body]
pub(crate) fn pop_frame(q: &mut ArrayQueue<Packet>) -> (r: Option<Packet>)
    ensures
        queue_capacity(*final(q)) == queue_capacity(*old(q)),
        queued_frames(*old(q)).len() == 0 ==> (r is None && queued_frames(*final(q)) == queued_frames(*old(q))),
        queued_frames(*old(q)).len() > 0 ==> (r == Some(queued_frames(*old(q))[0]) && queued_frames(*final(q)) == queued_frames(*old(q)).drop_first()),
{
    q.pop_mut()
}

/// A map from integer keys to integer values.
#[verifier::external_body]
pub struct Table {
    map: hashbrown::HashMap<u64, u64>,
}

/// The entries of a table.
pub uninterp spec fn table_entries(t: Table) -> Map<u64, u64>;

impl Table {
    /// Relies on `hashbrown::HashMap::new`: a new map is empty.
    #[verifier::external_body]
    pub(crate) fn new() -> (r: Table)
        ensures
            table_entries(r).dom() == Set::<u64>::empty(),
    {
        Table { map: hashbrown::HashMap::new() }
    }

    /// Relies on `hashbrown::HashMap::insert`: afterwards `k` maps to `v`, and
    /// every other key to what it mapped to before.
    #[verifier::external_body]
    pub(crate) fn insert(&mut self, k: u64, v: u64)
        ensures
            table_entries(*final(self)) == table_entries(*old(self)).insert(k, v),
    {
        self.map.insert(k, v);
    }

    /// Relies on `hashbrown::HashMap::get`: the value that `k` maps to, if any.
    #[verifier::external_body]
    pub(crate) fn get(&self, k: u64) -> (r: Option<u64>)
        ensures
            r == (if table_entries(*self).contains_key(k) {
                Some(table_entries(*self)[k])
            } else {
                None
            }),
    {
        self.map.get(&k).copied()
    }
}

/// The bound of every receive queue.
pub const SOCKET_QUEUE_CAPACITY: usize = 16;

/// What became of a frame handed to a demultiplexer.
#[derive(Clone, Copy, Debug, PartialEq, Eq, Structural)]
pub enum Delivery {
    /// It waits in the queue registered for its key.
    Queued,
    /// No queue is registered for its key: it was dropped.
    Unclaimed,
    /// The queue for its key was full: it was dropped.
    QueueFull,
    /// It failed a length or checksum test: it was dropped.
    Rejected,
}

/// A bounded queue was full, so a frame could not be handed on. The stack
/// treats this as fatal.
#[derive(Clone, Copy, Debug, PartialEq, Eq, Structural)]
pub struct QueueFull;

/// Receive queues, one per registration, and the table that says which
/// queue each key currently feeds. A later registration of a key wins.
pub struct Demux {
    table: Table,
    queues: Vec<ArrayQueue<Packet>>,
}

impl Demux {
    /// Which queue each registered key feeds.
    pub closed spec fn slots(&self) -> Map<u64, u64> {
        table_entries(self.table)
    }

    /// The number of queues made so far.
    pub closed spec fn queue_count(&self) -> nat {
        self.queues@.len()
    }

    /// The frames waiting in queue `s`.
    pub closed spec fn queue(&self, s: int) -> Seq<Packet> {
        queued_frames(self.queues@[s])
    }

    pub closed spec fn wf(&self) -> bool {
        &&& forall|k: u64| #[trigger]
            self.slots().contains_key(k) ==> self.slots()[k] < self.queue_count()
        &&& forall|s: int|
            0 <= s < self.queue_count() ==> queue_capacity(#[trigger] self.queues@[s])
                == SOCKET_QUEUE_CAPACITY
        &&& forall|s: int, i: int|
            0 <= s < self.queue_count() && 0 <= i < queued_frames(self.queues@[s]).len()
                ==> (#[trigger] queued_frames(self.queues@[s])[i]).wf()
    }

    /// The key `k` feeds queue `s`.
    pub open spec fn feeds(&self, k: u64, s: int) -> bool {
        self.slots().contains_key(k) && self.slots()[k] == s
    }

    /// Every queue but `s` is as in `other`.
    pub open spec fn others_unchanged(&self, other: &Demux, s: int) -> bool {
        &&& self.queue_count() == other.queue_count()
        &&& forall|t: int| 0 <= t < self.queue_count() && t != s ==> self.queue(t) == other.queue(t)
    }

    /// `new` is `old` after `p` was handed on under `key` with outcome `r`.
    pub open spec fn delivery(old: Demux, new: Demux, key: u64, p: Packet, r: Delivery) -> bool {
        &&& new.slots() == old.slots()
        &&& !old.slots().contains_key(key) ==> r == Delivery::Unclaimed && new.others_unchanged(&old, -1)
        &&& old.slots().contains_key(key) ==> {
            let s = old.slots()[key] as int;
            &&& new.others_unchanged(&old, s)
            &&& old.queue(s).len() < SOCKET_QUEUE_CAPACITY ==> r == Delivery::Queued && new.queue(s) == old.queue(s).push(p)
            &&& old.queue(s).len() >= SOCKET_QUEUE_CAPACITY ==> r == Delivery::QueueFull && new.queue(s) == old.queue(s)
        }
    }

    pub fn new() -> (r: Demux)
        ensures
            r.wf(),
            r.slots().dom() == Set::<u64>::empty(),
            r.queue_count() == 0,
    {
        Demux { table: Table::new(), queues: Vec::new() }
    }

    /// Makes a new empty queue and lets `key` feed it; returns the queue's index.
    pub fn open(&mut self, key: u64) -> (slot: usize)
        requires
            old(self).wf(),
            old(self).queue_count() < usize::MAX,
        ensures
            final(self).wf(),
            slot == old(self).queue_count(),
            final(self).queue_count() == old(self).queue_count() + 1,
            final(self).slots() == old(self).slots().insert(key, slot as u64),
            final(self).queue(slot as int) == Seq::<Packet>::empty(),
            forall|t: int| 0 <= t < old(self).queue_count() ==> final(self).queue(t) == old(self).queue(t),
    {
        let slot = self.queues.len();
        let q = new_frame_queue(SOCKET_QUEUE_CAPACITY);
        self.queues.push(q);
        self.table.insert(key, slot as u64);
        proof {
            let before = old(self).queues@;
            assert forall|t: int| 0 <= t < before.len() implies self.queues@[t] == before[t] by {}
            assert forall|k: u64| #[trigger] self.slots().contains_key(k) implies self.slots()[k] < self.queue_count() by {
                if k != key {
                    assert(old(self).slots().contains_key(k));
                }
            }
            assert forall|t: int| 0 <= t < self.queue_count() implies queue_capacity(#[trigger] self.queues@[t]) == SOCKET_QUEUE_CAPACITY by {
                if t < before.len() {
                    assert(queue_capacity(before[t]) == SOCKET_QUEUE_CAPACITY);
                }
            }
            assert forall|t: int, i: int|
                0 <= t < self.queue_count() && 0 <= i < queued_frames(self.queues@[t]).len()
                implies (#[trigger] queued_frames(self.queues@[t])[i]).wf() by {
                assert(t < before.len());
                assert(queued_frames(before[t])[i].wf());
            }
        }
        slot
    }

    /// Hands `p` to the queue that `key` feeds.
    pub fn deliver(&mut self, key: u64, p: Packet) -> (r: Delivery)
        requires
            old(self).wf(),
            p.wf(),
        ensures
            final(self).wf(),
            Demux::delivery(*old(self), *final(self), key, p, r),
    {
        match self.table.get(key) {
            None => Delivery::Unclaimed,
            Some(v) => {
                let count = self.queues.len();
                proof {
                    assert(old(self).slots().contains_key(key));
                    assert(v < count);
                }
                let s = v as usize;
                let ghost before = self.queues@;
                let r = push_frame(&mut self.queues[s], p);
                proof {
                    assert forall|t: int| 0 <= t < before.len() && t != s implies self.queues@[t] == before[t] by {}
                    assert forall|t: int| 0 <= t < self.queue_count() implies queue_capacity(#[trigger] self.queues@[t]) == SOCKET_QUEUE_CAPACITY by {
                        assert(queue_capacity(before[t]) == SOCKET_QUEUE_CAPACITY);
                    }
                    assert forall|t: int, i: int|
                        0 <= t < self.queue_count() && 0 <= i < queued_frames(self.queues@[t]).len()
                        implies (#[trigger] queued_frames(self.queues@[t])[i]).wf() by {
                        if t != s || i < queued_frames(before[t]).len() {
                            assert(queued_frames(before[t])[i].wf());
                        }
                    }
                }
                match r {
                    Ok(()) => Delivery::Queued,
                    Err(_) => Delivery::QueueFull,
                }
            },
        }
    }

    /// Takes the oldest frame from queue `slot`.
    pub fn take(&mut self, slot: usize) -> (r: Option<Packet>)
        requires
            old(self).wf(),
            slot < old(self).queue_count(),
        ensures
            final(self).wf(),
            final(self).slots() == old(self).slots(),
            final(self).others_unchanged(old(self), slot as int),
            old(self).queue(slot as int).len() == 0 ==> r is None && final(self).queue(slot as int)
                == old(self).queue(slot as int),
            old(self).queue(slot as int).len() > 0 ==> r == Some(old(self).queue(slot as int)[0])
                && final(self).queue(slot as int) == old(self).queue(slot as int).drop_first(),
            r matches Some(p) ==> p.wf(),
    {
        let ghost before = self.queues@;
        let r = pop_frame(&mut self.queues[slot]);
        proof {
            assert forall|k: u64| #[trigger] self.slots().contains_key(k) implies self.slots()[k] < self.queue_count() by {
                assert(old(self).slots().contains_key(k));
            }
            assert forall|t: int| 0 <= t < before.len() && t != slot implies self.queues@[t] == before[t] by {}
            assert forall|t: int| 0 <= t < self.queue_count() implies queue_capacity(#[trigger] self.queues@[t]) == SOCKET_QUEUE_CAPACITY by {
                assert(queue_capacity(before[t]) == SOCKET_QUEUE_CAPACITY);
            }
            assert forall|t: int, i: int|
                0 <= t < self.queue_count() && 0 <= i < queued_frames(self.queues@[t]).len()
                implies (#[trigger] queued_frames(self.queues@[t])[i]).wf() by {
                if t != slot {
                    assert(queued_frames(before[t])[i].wf());
                } else {
                    assert(queued_frames(self.queues@[t])[i] == queued_frames(before[t])[i + 1]);
                    assert(queued_frames(before[t])[i + 1].wf());
                }
            }
            if queued_frames(before[slot as int]).len() > 0 {
                assert(queued_frames(before[slot as int])[0].wf());
            }
        }
        r
    }
}

} // verus!
