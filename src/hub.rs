//! A bounded broadcast hub: one ring of slots shared by every receiver, each
//! receiver holding only its own read position. Publishing never waits on a
//! receiver; a receiver that falls more than a ring behind is told how many
//! events it missed and resumes at the oldest event still held.

use vstd::prelude::*;

verus! {

/// The ring size used when none is given.
pub const DEFAULT_CAPACITY: usize = 2048;

/// Why a receive handed out no event.
#[derive(Clone, Copy, Debug, PartialEq, Eq, Structural)]
pub enum RecvError {
    /// Every event published so far has been read.
    Empty,
    /// This many events were overwritten before they were read.
    Lagged(u64),
}

/// One subscriber's read position: the number of the next event it reads.
#[derive(Debug)]
pub struct Receiver {
    next: u64,
}

impl Receiver {
    pub closed spec fn position(self) -> u64 {
        self.next
    }

    pub fn next_position(&self) -> (r: u64)
        ensures
            r == self.position(),
    {
        self.next
    }
}

/// The hub. Events are numbered from zero in the order they were published;
/// the ring holds the last `capacity` of them.
pub struct Hub<T> {
    capacity: usize,
    slots: Vec<T>,
    tail: u64,
    receivers: u64,
    history: Ghost<Seq<T>>,
}

impl<T> Hub<T> {
    /// Every event ever accepted, in publishing order.
    pub closed spec fn history(self) -> Seq<T> {
        self.history@
    }

    pub closed spec fn capacity(self) -> nat {
        self.capacity as nat
    }

    /// How many receivers are subscribed.
    pub closed spec fn receivers(self) -> nat {
        self.receivers as nat
    }

    /// The number of the oldest event still held.
    pub open spec fn oldest(self) -> nat {
        if self.history().len() > self.capacity() {
            (self.history().len() - self.capacity()) as nat
        } else {
            0
        }
    }

    /// How many events the ring holds: never more than its capacity, however
    /// many receivers there are.
    pub open spec fn held(self) -> nat {
        if self.history().len() > self.capacity() {
            self.capacity()
        } else {
            self.history().len()
        }
    }

    pub closed spec fn wf(self) -> bool {
        &&& self.capacity > 0
        &&& self.tail as nat == self.history@.len()
        &&& self.slots@.len() == if self.tail as nat > self.capacity as nat {
            self.capacity as nat
        } else {
            self.tail as nat
        }
        &&& forall|p: int|
            self.oldest() <= p < self.tail ==> #[trigger] self.slots@[p % (self.capacity as int)]
                == self.history@[p]
    }

    /// What a receive at `next` hands out or reports.
    pub open spec fn recv_result(self, next: u64) -> Result<T, RecvError> {
        if next as nat == self.history().len() {
            Err(RecvError::Empty)
        } else if (next as nat) < self.oldest() {
            Err(RecvError::Lagged((self.oldest() - next) as u64))
        } else {
            Ok(self.history()[next as int])
        }
    }

    /// Where a receive at `next` leaves the receiver.
    pub open spec fn next_after(self, next: u64) -> u64 {
        if next as nat == self.history().len() {
            next
        } else if (next as nat) < self.oldest() {
            self.oldest() as u64
        } else {
            (next + 1) as u64
        }
    }

    /// A hub whose ring holds `capacity` events.
    pub fn new(capacity: usize) -> (r: Hub<T>)
        requires
            capacity > 0,
        ensures
            r.wf(),
            r.capacity() == capacity,
            r.history().len() == 0,
            r.receivers() == 0,
    {
        Hub { capacity, slots: Vec::new(), tail: 0, receivers: 0, history: Ghost(Seq::empty()) }
    }

    /// How many events have been accepted so far.
    pub fn published(&self) -> (r: u64)
        requires
            self.wf(),
        ensures
            r as nat == self.history().len(),
    {
        self.tail
    }

    /// How many events the ring holds.
    pub fn held_len(&self) -> (r: usize)
        requires
            self.wf(),
        ensures
            r as nat == self.held(),
            r as nat <= self.capacity(),
    {
        self.slots.len()
    }

    pub fn receiver_count(&self) -> (r: u64)
        ensures
            r as nat == self.receivers(),
    {
        self.receivers
    }

    /// A new receiver, placed after every event published so far.
    pub fn subscribe(&mut self) -> (rx: Receiver)
        requires
            old(self).wf(),
            old(self).receivers() < u64::MAX,
        ensures
            final(self).wf(),
            final(self).history() == old(self).history(),
            final(self).capacity() == old(self).capacity(),
            final(self).receivers() == old(self).receivers() + 1,
            rx.position() as nat == old(self).history().len(),
    {
        self.receivers = self.receivers + 1;
        Receiver { next: self.tail }
    }

    /// Drops a receiver.
    pub fn unsubscribe(&mut self, rx: Receiver)
        requires
            old(self).wf(),
            old(self).receivers() > 0,
        ensures
            final(self).wf(),
            final(self).history() == old(self).history(),
            final(self).capacity() == old(self).capacity(),
            final(self).receivers() == old(self).receivers() - 1,
    {
        self.receivers = self.receivers - 1;
    }

    /// Publishes `value` to every receiver, overwriting the oldest held event
    /// once the ring is full. With no receiver the value is handed back and
    /// nothing is kept; otherwise the number of receivers is returned.
    pub fn send(&mut self, value: T) -> (r: Result<u64, T>)
        requires
            old(self).wf(),
            old(self).history().len() < u64::MAX,
        ensures
            final(self).wf(),
            final(self).capacity() == old(self).capacity(),
            final(self).receivers() == old(self).receivers(),
            old(self).receivers() == 0 ==> r == Err::<u64, T>(value) && final(self).history()
                == old(self).history(),
            old(self).receivers() > 0 ==> r == Ok::<u64, T>(old(self).receivers() as u64)
                && final(self).history() == old(self).history().push(value),
            final(self).history().len() <= old(self).history().len() + 1,
    {
        if self.receivers == 0 {
            return Err(value);
        }
        let ghost old_hub = *self;
        let ghost old_slots = self.slots@;
        let cap = self.capacity as u64;
        let idx = (self.tail % cap) as usize;
        proof {
            self.history@ = self.history@.push(value);
        }
        if self.tail < cap {
            proof {
                assert(self.tail % cap == self.tail) by (nonlinear_arith)
                    requires
                        self.tail < cap,
                ;
            }
            self.slots.push(value);
        } else {
            self.slots.set(idx, value);
        }
        self.tail = self.tail + 1;
        proof {
            let c = self.capacity as int;
            assert forall|p: int| self.oldest() <= p < self.tail implies #[trigger] self.slots@[p
                % c] == self.history@[p] by {
                vstd::arithmetic::div_mod::lemma_mod_pos_bound(p, c);
                if self.tail <= c {
                    vstd::arithmetic::div_mod::lemma_small_mod(p as nat, c as nat);
                }
                if p == self.tail - 1 {
                    assert(p % c == idx);
                } else {
                    assert(old_hub.oldest() <= p);
                    lemma_mod_distinct(p, self.tail - 1, c);
                    assert(self.slots@[p % c] == old_slots[p % c]);
                }
            }
        }
        Ok(self.receivers)
    }

    /// Reads the next event for `rx`: the event at its position, or `Empty`
    /// when it has read everything, or `Lagged` with the number of events it
    /// missed, after which it stands at the oldest event still held.
    pub fn try_recv<'a>(&'a self, rx: &mut Receiver) -> (r: Result<&'a T, RecvError>)
        requires
            self.wf(),
            old(rx).position() <= self.history().len(),
        ensures
            final(rx).position() == self.next_after(old(rx).position()),
            final(rx).position() <= self.history().len(),
            match r {
                Ok(v) => self.recv_result(old(rx).position()) == Ok::<T, RecvError>(*v),
                Err(e) => self.recv_result(old(rx).position()) == Err::<T, RecvError>(e),
            },
    {
        let cap = self.capacity as u64;
        if rx.next == self.tail {
            return Err(RecvError::Empty);
        }
        if self.tail > cap && rx.next < self.tail - cap {
            let oldest = self.tail - cap;
            let missed = oldest - rx.next;
            rx.next = oldest;
            return Err(RecvError::Lagged(missed));
        }
        let idx = (rx.next % cap) as usize;
        proof {
            assert(self.slots@[rx.next as int % (self.capacity as int)] == self.history@[
                rx.next as int
            ]);
            assert(idx < self.slots@.len()) by (nonlinear_arith)
                requires
                    idx == rx.next % cap,
                    cap > 0,
                    rx.next < self.tail,
                    self.slots@.len() == if self.tail > cap {
                        cap as int
                    } else {
                        self.tail as int
                    },
            ;
        }
        rx.next = rx.next + 1;
        Ok(&self.slots[idx])
    }
}

/// A receiver that has fallen more than a ring behind is told that it lagged
/// by the number of events it missed, is moved to the oldest event still
/// held, and its next receive hands out exactly that event.
pub proof fn lemma_lag_resumes_at_oldest<T>(hub: Hub<T>, next: u64)
    requires
        hub.wf(),
        next as nat + hub.capacity() < hub.history().len(),
    ensures
        hub.recv_result(next) == Err::<T, RecvError>(
            RecvError::Lagged((hub.oldest() - next) as u64),
        ),
        hub.next_after(next) as nat == hub.oldest(),
        hub.recv_result(hub.next_after(next)) == Ok::<T, RecvError>(
            hub.history()[hub.oldest() as int],
        ),
{
}

/// A receive never moves a receiver back, and one that hands out an event
/// hands out the event at the receiver's position and moves past it: the
/// positions of the events one receiver gets only grow, so none comes twice.
pub proof fn lemma_no_redelivery<T>(hub: Hub<T>, next: u64)
    requires
        hub.wf(),
        next as nat <= hub.history().len(),
    ensures
        next <= hub.next_after(next) <= hub.history().len(),
        hub.recv_result(next) is Ok ==> hub.recv_result(next) == Ok::<T, RecvError>(
            hub.history()[next as int],
        ) && next < hub.next_after(next),
{
}

proof fn lemma_mod_distinct(p: int, q: int, c: int)
    requires
        0 < c,
        0 <= p < q < p + c,
    ensures
        p % c != q % c,
{
    vstd::arithmetic::div_mod::lemma_fundamental_div_mod(p, c);
    vstd::arithmetic::div_mod::lemma_fundamental_div_mod(q, c);
    vstd::arithmetic::div_mod::lemma_mod_pos_bound(p, c);
    vstd::arithmetic::div_mod::lemma_mod_pos_bound(q, c);
    assert(p % c != q % c) by (nonlinear_arith)
        requires
            0 < c,
            0 <= p < q < p + c,
            p == c * (p / c) + p % c,
            q == c * (q / c) + q % c,
            0 <= p % c < c,
            0 <= q % c < c,
    ;
}

} // verus!
