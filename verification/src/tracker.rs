//! The addresses that count as already seen.
//!
//! The tracker maps each active address to the time of the visit that
//! recorded it. Entries leave only by a purge: a lookup never removes one,
//! however old it is.
//!
//! The entries are held in a list in which no address occurs twice. An
//! address is of one of two families and so is no single integer, and of a
//! hash map under any other key nothing can be proved.

use crate::address::Address;
use crate::clock::Timestamp;
use vstd::prelude::*;

verus! {

/// One recorded visit.
#[derive(Clone, Copy, Debug)]
pub struct Visit {
    pub addr: Address,
    pub seen: Timestamp,
}

/// The mapping that a list of visits stands for. A later visit from an
/// address replaces an earlier one.
pub open spec fn visits_map(visits: Seq<Visit>) -> Map<Address, Timestamp>
    decreases visits.len(),
{
    if visits.len() == 0 {
        Map::empty()
    } else {
        visits_map(visits.drop_last()).insert(visits.last().addr, visits.last().seen)
    }
}

/// Whether no address occurs twice in `visits`.
pub open spec fn distinct_addresses(visits: Seq<Visit>) -> bool {
    forall|i: int, j: int|
        0 <= i < j < visits.len() ==> (#[trigger] visits[i]).addr != (#[trigger] visits[j]).addr
}

/// What a purge at `now` leaves of `active`: the entries that have not timed
/// out, each with its time unchanged.
pub open spec fn after_purge(
    active: Map<Address, Timestamp>,
    now: Timestamp,
    timeout: nat,
) -> Map<Address, Timestamp> {
    Map::new(
        |a: Address| active.dom().contains(a) && !active[a].expired_at(now, timeout),
        |a: Address| active[a],
    )
}

/// The addresses of a list of visits are those of its mapping.
pub proof fn lemma_visits_map_dom(visits: Seq<Visit>, a: Address)
    ensures
        visits_map(visits).dom().contains(a) <==> exists|i: int|
            0 <= i < visits.len() && (#[trigger] visits[i]).addr == a,
        visits_map(visits).dom().finite(),
    decreases visits.len(),
{
    if visits.len() > 0 {
        let front = visits.drop_last();
        lemma_visits_map_dom(front, a);
        if visits_map(visits).dom().contains(a) {
            if visits.last().addr == a {
                assert(visits[visits.len() - 1].addr == a);
            } else {
                let i = choose|i: int| 0 <= i < front.len() && (#[trigger] front[i]).addr == a;
                assert(visits[i].addr == a);
            }
        }
        if exists|i: int| 0 <= i < visits.len() && (#[trigger] visits[i]).addr == a {
            let i = choose|i: int| 0 <= i < visits.len() && (#[trigger] visits[i]).addr == a;
            if i < visits.len() - 1 {
                assert(front[i].addr == a);
            }
        }
    }
}

/// In a list without repeated addresses, each visit's time is the one its
/// address maps to.
pub proof fn lemma_visits_map_value(visits: Seq<Visit>, i: int)
    requires
        distinct_addresses(visits),
        0 <= i < visits.len(),
    ensures
        visits_map(visits).dom().contains(visits[i].addr),
        visits_map(visits)[visits[i].addr] == visits[i].seen,
    decreases visits.len(),
{
    let front = visits.drop_last();
    if i < visits.len() - 1 {
        assert(distinct_addresses(front)) by {
            assert forall|x: int, y: int| 0 <= x < y < front.len() implies (#[trigger] front[x]).addr
                != (#[trigger] front[y]).addr by {
                assert(visits[x].addr != visits[y].addr);
            }
        }
        lemma_visits_map_value(front, i);
        assert(front[i] == visits[i]);
        assert(visits[i].addr != visits[visits.len() - 1].addr);
    }
}

/// The addresses seen within the timeout, each with the time of the visit
/// that recorded it.
pub struct UniqueVisitTracker {
    visits: Vec<Visit>,
}

impl View for UniqueVisitTracker {
    type V = Map<Address, Timestamp>;

    closed spec fn view(&self) -> Map<Address, Timestamp> {
        visits_map(self.visits@)
    }
}

impl UniqueVisitTracker {
    #[verifier::type_invariant]
    spec fn no_address_twice(self) -> bool {
        distinct_addresses(self.visits@)
    }

    /// A tracker that has seen nobody.
    pub fn new() -> (t: UniqueVisitTracker)
        ensures
            t@ == Map::<Address, Timestamp>::empty(),
    {
        UniqueVisitTracker { visits: Vec::new() }
    }

    /// How many addresses are active.
    pub fn len(&self) -> (n: usize)
        ensures
            n == self@.dom().len(),
            self@.dom().finite(),
    {
        proof {
            use_type_invariant(self);
            lemma_distinct_len(self.visits@);
        }
        self.visits.len()
    }

    /// Whether `addr` is active. Its age plays no part.
    pub fn contains(&self, addr: Address) -> (b: bool)
        ensures
            b == self@.dom().contains(addr),
    {
        let mut i: usize = 0;
        while i < self.visits.len()
            invariant
                i <= self.visits@.len(),
                forall|j: int| 0 <= j < i ==> (#[trigger] self.visits@[j]).addr != addr,
            decreases self.visits@.len() - i,
        {
            if self.visits[i].addr == addr {
                proof {
                    lemma_visits_map_dom(self.visits@, addr);
                }
                return true;
            }
            i = i + 1;
        }
        proof {
            lemma_visits_map_dom(self.visits@, addr);
        }
        false
    }

    /// The time of the visit that recorded `addr`, where it is active.
    pub fn last_seen(&self, addr: Address) -> (r: Option<Timestamp>)
        ensures
            r == if self@.dom().contains(addr) {
                Some(self@[addr])
            } else {
                None
            },
    {
        let mut i: usize = 0;
        while i < self.visits.len()
            invariant
                i <= self.visits@.len(),
                forall|j: int| 0 <= j < i ==> (#[trigger] self.visits@[j]).addr != addr,
            decreases self.visits@.len() - i,
        {
            if self.visits[i].addr == addr {
                proof {
                    use_type_invariant(self);
                    lemma_visits_map_value(self.visits@, i as int);
                }
                return Some(self.visits[i].seen);
            }
            i = i + 1;
        }
        proof {
            lemma_visits_map_dom(self.visits@, addr);
        }
        None
    }

    /// Removes every entry that has timed out at `now`: those seen at least
    /// `timeout` whole seconds before. All others stay as they are.
    pub fn purge_expired(&mut self, now: Timestamp, timeout: u64)
        ensures
            final(self)@ == after_purge(old(self)@, now, timeout as nat),
    {
        proof {
            use_type_invariant(&*self);
        }
        let mut kept: Vec<Visit> = Vec::new();
        let mut i: usize = 0;
        while i < self.visits.len()
            invariant
                i <= self.visits@.len(),
                distinct_addresses(self.visits@),
                distinct_addresses(kept@),
                visits_map(kept@) == after_purge(
                    visits_map(self.visits@.take(i as int)),
                    now,
                    timeout as nat,
                ),
            decreases self.visits@.len() - i,
        {
            let visit = self.visits[i];
            proof {
                let seen = self.visits@.take(i as int);
                let more = self.visits@.take(i as int + 1);
                assert(more.drop_last() =~= seen);
                assert(more.last() == visit);
                lemma_visits_map_dom(seen, visit.addr);
                assert(!visits_map(seen).dom().contains(visit.addr)) by {
                    if visits_map(seen).dom().contains(visit.addr) {
                        let j = choose|j: int|
                            0 <= j < seen.len() && (#[trigger] seen[j]).addr == visit.addr;
                        assert(self.visits@[j].addr != self.visits@[i as int].addr);
                    }
                }
                lemma_push_distinct(kept@, visit);
            }
            let ghost before = kept@;
            if !visit.seen.is_expired(now, timeout) {
                kept.push(visit);
                proof {
                    assert(kept@.drop_last() =~= before);
                }
            }
            proof {
                let more = self.visits@.take(i as int + 1);
                assert(visits_map(kept@) =~= after_purge(visits_map(more), now, timeout as nat));
            }
            i = i + 1;
        }
        proof {
            assert(self.visits@.take(i as int) =~= self.visits@);
        }
        self.visits = kept;
    }

    /// Records a visit from `addr` at `now` where the address is not active,
    /// and says whether it did. An active address stays as it was, with its
    /// earlier time.
    pub fn is_new_and_record(&mut self, addr: Address, now: Timestamp) -> (fresh: bool)
        ensures
            fresh == !old(self)@.dom().contains(addr),
            final(self)@ == if fresh {
                old(self)@.insert(addr, now)
            } else {
                old(self)@
            },
    {
        if self.contains(addr) {
            return false;
        }
        proof {
            use_type_invariant(&*self);
            lemma_push_distinct(self.visits@, Visit { addr, seen: now });
        }
        let mut visits: Vec<Visit> = Vec::new();
        std::mem::swap(&mut visits, &mut self.visits);
        let ghost before = visits@;
        visits.push(Visit { addr, seen: now });
        proof {
            assert(visits@.drop_last() =~= before);
        }
        self.visits = visits;
        true
    }
}

/// A visit from an address that a list does not hold may join it without
/// any address occurring twice.
pub proof fn lemma_push_distinct(visits: Seq<Visit>, visit: Visit)
    requires
        distinct_addresses(visits),
    ensures
        !visits_map(visits).dom().contains(visit.addr) ==> distinct_addresses(visits.push(visit)),
{
    if !visits_map(visits).dom().contains(visit.addr) {
        let longer = visits.push(visit);
        assert forall|i: int, j: int| 0 <= i < j < longer.len() implies (#[trigger] longer[i]).addr
            != (#[trigger] longer[j]).addr by {
            if j < visits.len() {
                assert(visits[i].addr != visits[j].addr);
            } else {
                lemma_visits_map_dom(visits, visit.addr);
                assert(visits[i].addr != visit.addr);
            }
        }
    }
}

/// A list without repeated addresses is as long as its mapping is large.
pub proof fn lemma_distinct_len(visits: Seq<Visit>)
    requires
        distinct_addresses(visits),
    ensures
        visits_map(visits).dom().finite(),
        visits_map(visits).dom().len() == visits.len(),
    decreases visits.len(),
{
    if visits.len() > 0 {
        let front = visits.drop_last();
        let last = visits.last();
        assert(distinct_addresses(front)) by {
            assert forall|x: int, y: int| 0 <= x < y < front.len() implies (#[trigger] front[x]).addr
                != (#[trigger] front[y]).addr by {
                assert(visits[x].addr != visits[y].addr);
            }
        }
        lemma_distinct_len(front);
        lemma_visits_map_dom(front, last.addr);
        assert(!visits_map(front).dom().contains(last.addr)) by {
            if visits_map(front).dom().contains(last.addr) {
                let j = choose|j: int| 0 <= j < front.len() && (#[trigger] front[j]).addr == last.addr;
                assert(visits[j].addr != visits[visits.len() - 1].addr);
            }
        }
        assert(visits_map(visits).dom() =~= visits_map(front).dom().insert(last.addr));
    } else {
        assert(visits_map(visits).dom() =~= Set::<Address>::empty());
    }
}

} // verus!
