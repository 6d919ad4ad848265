//! The per-connection multiplexer state: the stream-id table that pairs each
//! in-flight request with a one-shot delivery slot, the routing decision for
//! every received frame, and the bounded writer queue that provides
//! backpressure.
//!
//! Stream ids live in `[0, 32767]`; a response is delivered to the waiter
//! whose id it carries; a cancelled wait leaves its id unusable until the
//! response is observed; a broken transport resolves every waiter and never
//! leaves the `Broken` state.

use vstd::prelude::*;
use vstd::pervasive::VecAdditionalExecFns;
use std::collections::VecDeque;

verus! {

/// Number of client-assignable stream ids.
pub const STREAM_IDS: usize = 32768;

/// Lifecycle of one transport.
#[derive(Clone, Copy, Debug, PartialEq, Eq, Structural)]
pub enum TransportState {
    /// The socket is open but STARTUP has not completed.
    Handshaking,
    /// User frames are accepted.
    Ready,
    /// The transport failed; it never leaves this state.
    Broken,
}

/// One stream id's delivery slot.
pub enum Slot<W> {
    /// The id is available.
    Free,
    /// A request is in flight; its response goes to this waiter.
    Waiting(W),
    /// The waiter abandoned the wait; the id stays unusable until the
    /// response is observed, so a later request cannot collide with it.
    Orphan,
}

/// Where the reader sends one received frame.
pub enum Routing<W> {
    /// Fulfil this waiter with the frame.
    Deliver(W),
    /// The waiter was cancelled; drop the frame and free the id.
    DiscardLate,
    /// No such waiter, and not an event: drop the frame with a warning.
    DiscardUnknown,
    /// A server push event: forward to the event channel.
    Event,
}

/// The per-transport stream table.
pub struct StreamTable<W> {
    slots: Vec<Slot<W>>,
    free: Vec<i16>,
    state: TransportState,
}

impl<W> StreamTable<W> {
    /// The slot sequence.
    pub closed spec fn slots_view(self) -> Seq<Slot<W>> {
        self.slots@
    }

    /// The transport's lifecycle state.
    pub closed spec fn spec_state(self) -> TransportState {
        self.state
    }

    /// An id with a request in flight (waiting or cancelled-but-unresolved).
    pub open spec fn outstanding(self, id: int) -> bool {
        0 <= id < STREAM_IDS && !(self.slots_view()[id] is Free)
    }

    /// An id whose waiter is still parked.
    pub open spec fn waiting(self, id: int) -> bool {
        0 <= id < STREAM_IDS && self.slots_view()[id] is Waiting
    }

    /// Structural invariant: 32768 slots; the free stack holds exactly the
    /// free ids, each once.
    pub closed spec fn wf(self) -> bool {
        &&& self.slots@.len() == STREAM_IDS
        &&& forall|i: int, j: int|
            0 <= i < j < self.free@.len() ==> self.free@[i] != self.free@[j]
        &&& forall|i: int|
            0 <= i < self.free@.len() ==> 0 <= #[trigger] self.free@[i] < STREAM_IDS
                && self.slots@[self.free@[i] as int] is Free
        &&& forall|id: int|
            0 <= id < STREAM_IDS && self.slots@[id] is Free ==> exists|i: int|
                0 <= i < self.free@.len() && #[trigger] self.free@[i] == id
    }

    /// The number of free ids.
    pub closed spec fn free_count(self) -> nat {
        self.free@.len()
    }

    /// A fresh table: every id free, transport still handshaking.
    pub fn new() -> (r: StreamTable<W>)
        ensures
            r.wf(),
            r.spec_state() == TransportState::Handshaking,
            forall|id: int| !r.outstanding(id),
            r.free_count() == STREAM_IDS,
    {
        let mut slots: Vec<Slot<W>> = Vec::new();
        let mut i: usize = 0;
        while i < STREAM_IDS
            invariant
                i <= STREAM_IDS,
                slots@.len() == i,
                forall|j: int| 0 <= j < i ==> slots@[j] is Free,
            decreases STREAM_IDS - i,
        {
            slots.push(Slot::Free);
            i = i + 1;
        }
        let mut free: Vec<i16> = Vec::new();
        let mut k: usize = 0;
        while k < STREAM_IDS
            invariant
                k <= STREAM_IDS,
                free@.len() == k,
                forall|j: int| 0 <= j < k ==> #[trigger] free@[j] == j,
            decreases STREAM_IDS - k,
        {
            free.push(k as i16);
            k = k + 1;
        }
        let r = StreamTable { slots, free, state: TransportState::Handshaking };
        proof {
            assert forall|id: int|
                0 <= id < STREAM_IDS && r.slots@[id] is Free implies exists|i: int|
                0 <= i < r.free@.len() && #[trigger] r.free@[i] == id by {
                assert(r.free@[id] == id);
            }
        }
        r
    }

    /// The transport's lifecycle state.
    pub fn state(&self) -> (r: TransportState)
        ensures
            r == self.spec_state(),
    {
        self.state
    }

    /// Marks the handshake complete.
    pub fn set_ready(&mut self)
        requires
            old(self).spec_state() == TransportState::Handshaking,
        ensures
            final(self).spec_state() == TransportState::Ready,
            final(self).slots_view() == old(self).slots_view(),
            final(self).free_count() == old(self).free_count(),
            final(self).wf() == old(self).wf(),
    {
        self.state = TransportState::Ready;
    }

    /// Marks the transport broken; it never recovers.
    pub fn mark_broken(&mut self)
        ensures
            final(self).spec_state() == TransportState::Broken,
            final(self).slots_view() == old(self).slots_view(),
            final(self).wf() == old(self).wf(),
    {
        self.state = TransportState::Broken;
    }

    /// Takes a fresh stream id for a request and parks its waiter.
    ///
    /// The id returned is outstanding for no other request — no two in-flight
    /// requests ever share an id — and becomes outstanding here. `None` only
    /// when all 32768 ids are taken, which is when a caller must wait.
    pub fn acquire(&mut self, waiter: W) -> (r: Option<i16>)
        requires
            old(self).wf(),
            old(self).spec_state() == TransportState::Ready,
        ensures
            final(self).wf(),
            final(self).spec_state() == TransportState::Ready,
            match r {
                Some(id) => {
                    &&& 0 <= id < STREAM_IDS
                    &&& !old(self).outstanding(id as int)
                    &&& final(self).waiting(id as int)
                    &&& final(self).slots_view()[id as int] == Slot::Waiting(waiter)
                    &&& forall|j: int|
                        0 <= j < STREAM_IDS && j != id ==> final(self).slots_view()[j] == old(
                            self,
                        ).slots_view()[j]
                    &&& final(self).free_count() == old(self).free_count() - 1
                },
                Option::None => {
                    &&& old(self).free_count() == 0
                    &&& forall|id: int| 0 <= id < STREAM_IDS ==> old(self).outstanding(id)
                    &&& final(self).slots_view() == old(self).slots_view()
                    &&& final(self).free_count() == 0
                },
            },
    {
        let ghost pre_free = self.free@;
        let ghost pre_slots = self.slots@;
        match self.free.pop() {
            Some(id) => {
                proof {
                    assert(id == pre_free[pre_free.len() - 1]);
                    assert(0 <= id < STREAM_IDS && pre_slots[id as int] is Free);
                }
                self.slots.set(id as usize, Slot::Waiting(waiter));
                proof {
                    assert forall|i: int, j: int|
                        0 <= i < j < self.free@.len() implies self.free@[i] != self.free@[j] by {
                        assert(self.free@[i] == pre_free[i] && self.free@[j] == pre_free[j]);
                    }
                    assert forall|i: int|
                        0 <= i < self.free@.len() implies 0 <= #[trigger] self.free@[i]
                        < STREAM_IDS && self.slots@[self.free@[i] as int] is Free by {
                        assert(self.free@[i] == pre_free[i]);
                        assert(pre_free[i] != pre_free[pre_free.len() - 1]);
                        assert(pre_slots[pre_free[i] as int] is Free);
                    }
                    assert forall|jd: int|
                        0 <= jd < STREAM_IDS && self.slots@[jd] is Free implies exists|i: int|
                        0 <= i < self.free@.len() && #[trigger] self.free@[i] == jd by {
                        assert(pre_slots[jd] is Free && jd != id);
                        let i = choose|i: int|
                            0 <= i < pre_free.len() && #[trigger] pre_free[i] == jd;
                        assert(i != pre_free.len() - 1);
                        assert(self.free@[i] == jd);
                    }
                }
                Some(id)
            },
            Option::None => {
                proof {
                    assert forall|id: int| 0 <= id < STREAM_IDS implies old(self).outstanding(
                        id,
                    ) by {
                        if old(self).slots@[id] is Free {
                            let i = choose|i: int|
                                0 <= i < old(self).free@.len() && old(self).free@[i] == id;
                        }
                    }
                }
                Option::None
            },
        }
    }

    /// Routes one received frame by its stream id.
    ///
    /// A non-negative id is delivered to exactly the waiter parked under it;
    /// the id becomes free only once the response is observed, also when the
    /// waiter was cancelled. A negative id is a server push: an event when
    /// the frame is an EVENT, otherwise a protocol-level discard.
    pub fn route_response(&mut self, stream_id: i16, is_event: bool) -> (r: Routing<W>)
        requires
            old(self).wf(),
        ensures
            final(self).wf(),
            final(self).spec_state() == old(self).spec_state(),
            stream_id < 0 ==> *final(self) == *old(self) && (if is_event {
                r is Event
            } else {
                r is DiscardUnknown
            }),
            stream_id >= 0 ==> {
                let id = stream_id as int;
                &&& (old(self).waiting(id) ==> r == Routing::Deliver(
                    old(self).slots_view()[id]->Waiting_0,
                ) && !(final(self).outstanding(id)))
                &&& (old(self).slots_view()[id] is Orphan ==> r is DiscardLate
                    && !(final(self).outstanding(id)))
                &&& (!old(self).outstanding(id) ==> r is DiscardUnknown
                    && final(self).slots_view() == old(self).slots_view()
                    && final(self).free_count() == old(self).free_count())
                &&& forall|j: int|
                    0 <= j < STREAM_IDS && j != id ==> final(self).slots_view()[j] == old(
                        self,
                    ).slots_view()[j]
            },
    {
        if stream_id < 0 {
            if is_event {
                return Routing::Event;
            }
            return Routing::DiscardUnknown;
        }
        let id = stream_id as usize;
        assert(id < STREAM_IDS);
        let ghost old_slots = self.slots@;
        let ghost old_free = self.free@;
        let mut taken: Slot<W> = Slot::Free;
        self.slots.set_and_swap(id, &mut taken);
        match taken {
            Slot::Free => {
                proof {
                    assert(self.slots@ =~= old_slots);
                }
                Routing::DiscardUnknown
            },
            Slot::Waiting(w) => {
                self.free.push(stream_id);
                proof {
                    self.lemma_freed_id_keeps_wf(old_slots, old_free, id as int);
                }
                Routing::Deliver(w)
            },
            Slot::Orphan => {
                self.free.push(stream_id);
                proof {
                    self.lemma_freed_id_keeps_wf(old_slots, old_free, id as int);
                }
                Routing::DiscardLate
            },
        }
    }

    /// Freeing one previously outstanding id preserves the table invariant.
    proof fn lemma_freed_id_keeps_wf(self, old_slots: Seq<Slot<W>>, old_free: Seq<i16>, id: int)
        requires
            old_slots.len() == STREAM_IDS,
            0 <= id < STREAM_IDS,
            !(old_slots[id] is Free),
            forall|i: int, j: int| 0 <= i < j < old_free.len() ==> old_free[i] != old_free[j],
            forall|i: int|
                0 <= i < old_free.len() ==> 0 <= #[trigger] old_free[i] < STREAM_IDS
                    && old_slots[old_free[i] as int] is Free,
            forall|jd: int|
                0 <= jd < STREAM_IDS && old_slots[jd] is Free ==> exists|i: int|
                    0 <= i < old_free.len() && #[trigger] old_free[i] == jd,
            self.slots@ == old_slots.update(id, Slot::Free),
            self.free@ == old_free.push(id as i16),
        ensures
            self.wf(),
    {
        assert forall|i: int, j: int|
            0 <= i < j < self.free@.len() implies self.free@[i] != self.free@[j] by {
            if j < old_free.len() {
            } else {
                assert(self.free@[j] == id as i16);
                assert(self.free@[i] == old_free[i]);
                assert(old_slots[old_free[i] as int] is Free);
            }
        }
        assert forall|i: int|
            0 <= i < self.free@.len() implies 0 <= #[trigger] self.free@[i] < STREAM_IDS
            && self.slots@[self.free@[i] as int] is Free by {
            if i < old_free.len() {
                assert(self.free@[i] == old_free[i]);
            } else {
                assert(self.free@[i] == id as i16);
            }
        }
        assert forall|jd: int|
            0 <= jd < STREAM_IDS && self.slots@[jd] is Free implies exists|i: int|
            0 <= i < self.free@.len() && #[trigger] self.free@[i] == jd by {
            if jd == id {
                assert(self.free@[self.free@.len() - 1] == jd);
            } else {
                assert(old_slots[jd] is Free);
                let i = choose|i: int| 0 <= i < old_free.len() && old_free[i] == jd;
                assert(self.free@[i] == jd);
            }
        }
    }

    /// Abandons a wait: the waiter comes back to be dropped, and the id stays
    /// unusable until its response is observed.
    pub fn cancel(&mut self, stream_id: i16) -> (r: Option<W>)
        requires
            old(self).wf(),
        ensures
            final(self).wf(),
            final(self).spec_state() == old(self).spec_state(),
            final(self).free_count() == old(self).free_count(),
            if old(self).waiting(stream_id as int) {
                &&& r == Some(old(self).slots_view()[stream_id as int]->Waiting_0)
                &&& final(self).slots_view()[stream_id as int] is Orphan
                &&& final(self).outstanding(stream_id as int)
                &&& forall|j: int|
                    0 <= j < STREAM_IDS && j != stream_id ==> final(self).slots_view()[j] == old(
                        self,
                    ).slots_view()[j]
            } else {
                r is None && final(self).slots_view() == old(self).slots_view()
            },
    {
        if stream_id < 0 {
            return Option::None;
        }
        let id = stream_id as usize;
        assert(id < STREAM_IDS);
        let ghost old_slots = self.slots@;
        let mut taken: Slot<W> = Slot::Orphan;
        self.slots.set_and_swap(id, &mut taken);
        match taken {
            Slot::Waiting(w) => {
                proof {
                    assert forall|i: int|
                        0 <= i < self.free@.len() implies 0 <= #[trigger] self.free@[i]
                        < STREAM_IDS && self.slots@[self.free@[i] as int] is Free by {
                        assert(old_slots[self.free@[i] as int] is Free);
                    }
                }
                Some(w)
            },
            Slot::Free => {
                self.slots.set(id, Slot::Free);
                proof {
                    assert(self.slots@ =~= old_slots);
                }
                Option::None
            },
            Slot::Orphan => {
                proof {
                    assert(self.slots@ =~= old_slots);
                }
                Option::None
            },
        }
    }

    /// Resolves every outstanding waiter, in stream-id order, and marks the
    /// transport broken: the fate of all in-flight requests when the socket
    /// fails. The table comes back empty, but the `Broken` state is final.
    pub fn fail_all(&mut self) -> (r: Vec<W>)
        requires
            old(self).wf(),
        ensures
            final(self).wf(),
            final(self).spec_state() == TransportState::Broken,
            forall|id: int| !final(self).outstanding(id),
            final(self).free_count() == STREAM_IDS,
            r@ == spec_waiters_of(old(self).slots_view()),
    {
        let ghost old_slots = self.slots@;
        let mut out: Vec<W> = Vec::new();
        let mut i: usize = 0;
        proof {
            assert(old_slots.take(0) =~= Seq::<Slot<W>>::empty());
        }
        while i < STREAM_IDS
            invariant
                i <= STREAM_IDS,
                self.slots@.len() == STREAM_IDS,
                old_slots.len() == STREAM_IDS,
                forall|j: int| 0 <= j < i ==> self.slots@[j] is Free,
                forall|j: int| i <= j < STREAM_IDS ==> self.slots@[j] == old_slots[j],
                out@ == spec_waiters_of(old_slots.take(i as int)),
            decreases STREAM_IDS - i,
        {
            let mut taken: Slot<W> = Slot::Free;
            self.slots.set_and_swap(i, &mut taken);
            proof {
                assert(old_slots.take(i + 1).drop_last() =~= old_slots.take(i as int));
                assert(old_slots.take(i + 1).last() == old_slots[i as int]);
            }
            match taken {
                Slot::Waiting(w) => {
                    out.push(w);
                },
                Slot::Free => {},
                Slot::Orphan => {},
            }
            assert(out@ =~= spec_waiters_of(old_slots.take(i + 1)));
            i = i + 1;
        }
        proof {
            assert(old_slots.take(STREAM_IDS as int) =~= old_slots);
        }
        self.free.clear();
        let mut k: usize = 0;
        while k < STREAM_IDS
            invariant
                k <= STREAM_IDS,
                self.free@.len() == k,
                forall|j: int| 0 <= j < k ==> #[trigger] self.free@[j] == j,
                self.slots@.len() == STREAM_IDS,
                forall|j: int| 0 <= j < STREAM_IDS ==> self.slots@[j] is Free,
                out@ == spec_waiters_of(old_slots),
            decreases STREAM_IDS - k,
        {
            self.free.push(k as i16);
            k = k + 1;
        }
        self.state = TransportState::Broken;
        proof {
            assert forall|id: int|
                0 <= id < STREAM_IDS && self.slots@[id] is Free implies exists|i: int|
                0 <= i < self.free@.len() && #[trigger] self.free@[i] == id by {
                assert(self.free@[id] == id);
            }
        }
        out
    }
}

/// The waiters parked in a slot sequence, in stream-id order.
pub open spec fn spec_waiters_of<W>(slots: Seq<Slot<W>>) -> Seq<W>
    decreases slots.len(),
{
    if slots.len() == 0 {
        Seq::empty()
    } else {
        spec_waiters_of(slots.drop_last()) + (match slots.last() {
            Slot::Waiting(w) => seq![w],
            _ => Seq::empty(),
        })
    }
}

/// The bounded writer queue of one transport: `(frame, delivery slot)` items
/// wait here for the writer task, and a full queue refuses the next item —
/// the suspension point that gives the session backpressure.
pub struct WriteQueue<T> {
    items: VecDeque<T>,
    cap: usize,
}

impl<T> WriteQueue<T> {
    /// The queued items, oldest first.
    pub closed spec fn items_view(self) -> Seq<T> {
        self.items@
    }

    /// The configured depth (`transport_buffer_size`).
    pub closed spec fn spec_cap(self) -> nat {
        self.cap as nat
    }

    /// An empty queue of depth `cap`.
    pub fn new(cap: usize) -> (r: WriteQueue<T>)
        requires
            cap >= 1,
        ensures
            r.items_view() == Seq::<T>::empty(),
            r.spec_cap() == cap,
    {
        WriteQueue { items: VecDeque::new(), cap }
    }

    /// Accepts an item while there is room; a full queue returns the item to
    /// the caller, who must wait for the writer to drain one first.
    pub fn try_enqueue(&mut self, item: T) -> (r: Result<(), T>)
        ensures
            final(self).spec_cap() == old(self).spec_cap(),
            match r {
                Ok(()) => old(self).items_view().len() < old(self).spec_cap()
                    && final(self).items_view() == old(self).items_view().push(item),
                Err(t) => old(self).items_view().len() >= old(self).spec_cap() && t == item
                    && final(self).items_view() == old(self).items_view(),
            },
    {
        if self.items.len() < self.cap {
            self.items.push_back(item);
            Ok(())
        } else {
            Err(item)
        }
    }

    /// Hands the writer the oldest item; `None` exactly on an empty queue.
    pub fn dequeue(&mut self) -> (r: Option<T>)
        ensures
            final(self).spec_cap() == old(self).spec_cap(),
            match r {
                Some(t) => old(self).items_view().len() > 0 && t == old(self).items_view()[0]
                    && final(self).items_view() == old(self).items_view().skip(1),
                Option::None => old(self).items_view().len() == 0 && final(self).items_view()
                    == old(self).items_view(),
            },
    {
        let r = self.items.pop_front();
        proof {
            if old(self).items@.len() > 0 {
                assert(self.items@ =~= old(self).items@.skip(1));
            }
        }
        r
    }
}

} // verus!
