//! A fixed-capacity, single-use reservation pool.
//!
//! A pool has a fixed number of slots. Distinct participants claim one slot
//! each through [`Pallet::reserve_slot`]; once every slot is occupied, a call
//! to [`Pallet::cook`] drains the pool in one batch and resets it, so the
//! cycle can start over. The pool keeps a scalar counter of occupied slots
//! and a set of claim holders, and maintains at all times that the counter
//! equals the number of claim holders and never exceeds the capacity.
//!
//! The hosting system is expected to authenticate callers and hand the pool a
//! stable participant identity; the pool records its outcomes as events in an
//! append-only log that the host can publish.

use vstd::prelude::*;

verus! {

/// The identity under which a caller claims a slot.
///
/// The host resolves an authenticated caller to a stable identity; the pool
/// only compares identities for equality.
pub type AccountId = u64;

/// An outcome recorded by the pool, one entry per state change.
#[derive(Clone, Copy, PartialEq, Eq, Structural, Debug)]
pub enum Event {
    /// A slot was reserved by the account with this identity.
    SlotTaken(AccountId),
    /// This account's batch member was processed when the full pool drained.
    Toasted(AccountId),
}

/// Why an operation was rejected. A rejected operation changes nothing.
#[derive(Clone, Copy, PartialEq, Eq, Structural, Debug)]
pub enum Error {
    /// Batch completion was attempted before every slot was taken.
    NotReady,
    /// The same account tried to reserve a second slot before a batch completed.
    DoubleReservation,
    /// A reservation was attempted while every slot was taken.
    AllSlotsTaken,
}

/// The reservation pool: a bounded set of slots that distinct participants
/// claim one at a time, drained all at once when full.
pub struct Pallet {
    /// The fixed number of slots, immutable for the lifetime of the pool.
    capacity: u8,
    /// The occupied-slot counter as stored: absent until the first
    /// reservation, and treated as zero while absent.
    taken: Option<u8>,
    /// The accounts currently holding a slot, in order of admission.
    claims: Vec<AccountId>,
    /// Every event recorded so far, oldest first.
    events: Vec<Event>,
}

impl Pallet {
    /// The fixed number of slots.
    pub closed spec fn capacity(self) -> nat {
        self.capacity as nat
    }

    /// The occupied-slot counter as stored; `None` until the first reservation.
    pub closed spec fn counter(self) -> Option<u8> {
        self.taken
    }

    /// The number of occupied slots: the stored counter, with an absent
    /// counter read as zero.
    pub open spec fn occupied(self) -> nat {
        match self.counter() {
            Option::None => 0nat,
            Option::Some(n) => n as nat,
        }
    }

    /// The accounts currently holding a slot, in order of admission.
    pub closed spec fn claim_seq(self) -> Seq<AccountId> {
        self.claims@
    }

    /// The set of accounts currently holding a slot.
    pub open spec fn claim_set(self) -> Set<AccountId> {
        self.claim_seq().to_set()
    }

    /// Every event recorded so far, oldest first.
    pub closed spec fn event_log(self) -> Seq<Event> {
        self.events@
    }

    /// The pool's invariant: no account holds more than one slot, the counter
    /// agrees with the number of claim holders, and the pool is never over
    /// capacity. Every operation requires and preserves this.
    pub open spec fn wf(self) -> bool {
        &&& self.claim_seq().no_duplicates()
        &&& self.occupied() == self.claim_seq().len()
        &&& self.occupied() <= self.capacity()
    }

    /// Creates an empty pool with the given number of slots. The counter
    /// starts out absent; it is first written by a reservation.
    pub fn new(capacity: u8) -> (pool: Pallet)
        ensures
            pool.wf(),
            pool.capacity() == capacity as nat,
            pool.counter() == Option::<u8>::None,
            pool.claim_seq() == Seq::<AccountId>::empty(),
            pool.event_log() == Seq::<Event>::empty(),
    {
        Pallet { capacity, taken: None, claims: Vec::new(), events: Vec::new() }
    }

    /// Reserves one slot for `account_id`.
    ///
    /// The checks run in order, first failure wins: a full pool rejects with
    /// [`Error::AllSlotsTaken`]; an account that already holds a slot rejects
    /// with [`Error::DoubleReservation`]. A rejection changes nothing. On
    /// success the account joins the claim holders, the counter rises by one
    /// (written as one for an absent counter), and a [`Event::SlotTaken`]
    /// event is recorded; the caller observes all of it or none of it.
    pub fn reserve_slot(&mut self, account_id: AccountId) -> (r: Result<(), Error>)
        requires
            old(self).wf(),
        ensures
            final(self).wf(),
            final(self).capacity() == old(self).capacity(),
            (if old(self).occupied() == old(self).capacity() {
                r == Err::<(), Error>(Error::AllSlotsTaken) && *final(self) == *old(self)
            } else if old(self).claim_set().contains(account_id) {
                r == Err::<(), Error>(Error::DoubleReservation) && *final(self) == *old(self)
            } else {
                r == Ok::<(), Error>(())
                    && final(self).claim_seq() == old(self).claim_seq().push(account_id)
                    && final(self).claim_set() == old(self).claim_set().insert(account_id)
                    && final(self).counter() == Some((old(self).occupied() + 1) as u8)
                    && final(self).event_log() == old(self).event_log().push(
                    Event::SlotTaken(account_id),
                )
            }),
    {
        let occupied: u8 = match self.taken {
            Some(n) => n,
            None => 0,
        };
        if occupied == self.capacity {
            return Err(Error::AllSlotsTaken);
        }
        if self.holds_slot(account_id) {
            return Err(Error::DoubleReservation);
        }
        proof {
            let s = self.claims@;
            assert forall|i: int, j: int|
                0 <= i < s.push(account_id).len() && 0 <= j < s.push(account_id).len() && i
                    != j implies s.push(account_id)[i] != s.push(account_id)[j] by {
                if i == s.len() as int {
                    assert(s[j] != account_id);
                } else if j == s.len() as int {
                    assert(s[i] != account_id);
                }
            }
        }
        self.claims.push(account_id);
        self.taken = Some(occupied + 1);
        self.events.push(Event::SlotTaken(account_id));
        proof {
            broadcast use vstd::seq_lib::lemma_seq_contains_after_push;

            assert(self.claims@.to_set() =~= old(self).claims@.to_set().insert(account_id));
        }
        Ok(())
    }

    /// Completes the batch: drains every slot at once.
    ///
    /// Legal only when every slot is occupied; otherwise it rejects with
    /// [`Error::NotReady`] and changes nothing. On success one
    /// [`Event::Toasted`] event is recorded per claim holder, in admission
    /// order — each holder exactly once — the claim set empties, and the
    /// counter is written to exactly zero rather than counted down.
    pub fn cook(&mut self) -> (r: Result<(), Error>)
        requires
            old(self).wf(),
        ensures
            final(self).wf(),
            final(self).capacity() == old(self).capacity(),
            (if old(self).occupied() != old(self).capacity() {
                r == Err::<(), Error>(Error::NotReady) && *final(self) == *old(self)
            } else {
                r == Ok::<(), Error>(())
                    && final(self).claim_seq() == Seq::<AccountId>::empty()
                    && final(self).claim_set() == Set::<AccountId>::empty()
                    && final(self).counter() == Some(0u8)
                    && final(self).event_log() == old(self).event_log() + toasted_events(
                    old(self).claim_seq(),
                )
            }),
    {
        let occupied: u8 = match self.taken {
            Some(n) => n,
            None => 0,
        };
        if occupied != self.capacity {
            return Err(Error::NotReady);
        }
        let ghost claims_at_entry = self.claims@;
        proof {
            assert(self.events@ =~= old(self).events@ + toasted_events(
                claims_at_entry.subrange(0, 0),
            ));
        }
        let mut i: usize = 0;
        while i < self.claims.len()
            invariant
                i <= self.claims.len(),
                self.claims@ == claims_at_entry,
                self.capacity == old(self).capacity,
                self.taken == old(self).taken,
                self.events@ == old(self).events@ + toasted_events(
                    claims_at_entry.subrange(0, i as int),
                ),
            decreases self.claims.len() - i,
        {
            let account_id = self.claims[i];
            self.events.push(Event::Toasted(account_id));
            proof {
                assert(toasted_events(claims_at_entry.subrange(0, i as int + 1))
                    =~= toasted_events(claims_at_entry.subrange(0, i as int)).push(
                    Event::Toasted(account_id),
                ));
                assert(old(self).events@ + toasted_events(
                    claims_at_entry.subrange(0, i as int),
                ).push(Event::Toasted(account_id)) =~= (old(self).events@ + toasted_events(
                    claims_at_entry.subrange(0, i as int),
                )).push(Event::Toasted(account_id)));
            }
            i += 1;
        }
        proof {
            assert(claims_at_entry.subrange(0, claims_at_entry.len() as int) =~= claims_at_entry);
        }
        self.claims = Vec::new();
        self.taken = Some(0);
        proof {
            assert(self.claims@.to_set() =~= Set::<AccountId>::empty());
        }
        Ok(())
    }

    /// The fixed number of slots, as stored.
    pub fn number_of_slots(&self) -> (r: u8)
        ensures
            r as nat == self.capacity(),
    {
        self.capacity
    }

    /// The occupied-slot counter as stored; `None` until the first reservation.
    pub fn number_of(&self) -> (r: Option<u8>)
        ensures
            r == self.counter(),
    {
        self.taken
    }

    /// Whether `account_id` currently holds a slot.
    pub fn account_id_with_slot(&self, account_id: AccountId) -> (r: bool)
        ensures
            r == self.claim_set().contains(account_id),
    {
        self.holds_slot(account_id)
    }

    /// Every event recorded so far, oldest first.
    pub fn events(&self) -> (r: &Vec<Event>)
        ensures
            r@ == self.event_log(),
    {
        &self.events
    }

    /// Scans the claim holders for `account_id`.
    fn holds_slot(&self, account_id: AccountId) -> (r: bool)
        ensures
            r == self.claim_seq().contains(account_id),
    {
        let mut i: usize = 0;
        while i < self.claims.len()
            invariant
                i <= self.claims.len(),
                forall|j: int| 0 <= j < i ==> self.claims@[j] != account_id,
            decreases self.claims.len() - i,
        {
            if self.claims[i] == account_id {
                return true;
            }
            i += 1;
        }
        false
    }
}

/// One completion event per drained claim holder, in admission order.
pub open spec fn toasted_events(claims: Seq<AccountId>) -> Seq<Event> {
    claims.map_values(|a: AccountId| Event::Toasted(a))
}

/// In every well-formed pool the occupied count equals the number of distinct
/// claim holders and never exceeds the capacity.
pub proof fn lemma_occupied_matches_claim_set(pool: Pallet)
    requires
        pool.wf(),
    ensures
        pool.occupied() == pool.claim_set().len(),
        pool.occupied() <= pool.capacity(),
{
    pool.claim_seq().unique_seq_to_set();
}

} // verus!
