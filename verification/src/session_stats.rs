//! Packet counts of a capture session: in total and per client, and the
//! clients ranked by how many packets they produced.

use vstd::prelude::*;
use crate::endpoint::Endpoint;
use crate::service::state::{find_link, is_client, lemma_first_index, lemma_set_link, link_of, links_distinct, set_link};

verus! {

broadcast use vstd::seq_lib::group_to_multiset_ensures;

/// The packets counted so far, in total and per client.
pub struct PacketTally {
    total: u64,
    clients: Vec<(Endpoint, u64)>,
}

/// Abstract value of a [`PacketTally`]: the total, and each client's count
/// in the order the clients were first seen.
pub struct TallyView {
    pub total: u64,
    pub clients: Seq<(Endpoint, u64)>,
}

impl View for PacketTally {
    type V = TallyView;

    closed spec fn view(&self) -> TallyView {
        TallyView { total: self.total, clients: self.clients@ }
    }
}

/// One count per client, none above the total.
pub open spec fn tally_wf(t: TallyView) -> bool {
    &&& links_distinct(t.clients)
    &&& forall|i: int| 0 <= i < t.clients.len() ==> (#[trigger] t.clients[i]).1 <= t.total
}

/// The count of a client: what was recorded, or 0.
pub open spec fn count_of(t: TallyView, a: Endpoint) -> u64 {
    match link_of(t.clients, a) {
        Some(n) => n,
        None => 0u64,
    }
}

/// Whether counts never increase along a ranking.
pub open spec fn ranked(s: Seq<(Endpoint, u64)>) -> bool {
    forall|i: int, j: int| 0 <= i < j < s.len() ==> s[i].1 >= s[j].1
}

impl PacketTally {
    /// Whether the tally's invariant holds.
    pub open spec fn wf(&self) -> bool {
        tally_wf(self@)
    }

    /// Nothing counted.
    pub fn new() -> (t: Self)
        ensures
            t@.total == 0,
            t@.clients == Seq::<(Endpoint, u64)>::empty(),
            t.wf(),
    {
        PacketTally { total: 0, clients: Vec::new() }
    }

    /// The number of packets counted.
    pub fn total(&self) -> (n: u64)
        ensures
            n == self@.total,
    {
        self.total
    }

    /// The number of clients seen.
    pub fn client_count(&self) -> (n: usize)
        ensures
            n == self@.clients.len(),
    {
        self.clients.len()
    }

    /// Counts one packet of `client`.
    pub fn record(&mut self, client: Endpoint)
        requires
            old(self).wf(),
            old(self)@.total < u64::MAX,
        ensures
            final(self).wf(),
            final(self)@.total == old(self)@.total + 1,
            final(self)@.clients == set_link(old(self)@.clients, client, (count_of(old(self)@, client) + 1) as u64),
            count_of(final(self)@, client) == count_of(old(self)@, client) + 1,
            forall|b: Endpoint| b != client ==> count_of(final(self)@, b) == count_of(old(self)@, b),
    {
        let ghost old_t = self@;
        proof { lemma_first_index(self.clients@, is_client::<u64>(client), 0); }
        let n: u64 = match find_link(&self.clients, client) {
            Some(i) => self.clients[i].1,
            None => 0,
        };
        assert(n == count_of(old_t, client));
        assert(n <= old_t.total);
        proof { lemma_set_link(old_t.clients, client, (n + 1) as u64); }
        match find_link(&self.clients, client) {
            Some(i) => { self.clients.set(i, (client, n + 1)); },
            None => { self.clients.push((client, n + 1)); },
        }
        self.total = self.total + 1;
        assert forall|i: int| 0 <= i < self@.clients.len() implies (#[trigger] self@.clients[i]).1 <= self@.total by {
            if self@.clients[i].0 != client {
                assert(exists|j: int| 0 <= j < old_t.clients.len() && old_t.clients[j] == self@.clients[i]);
            }
        }
    }

    /// The clients and their counts, most packets first (clients with equal
    /// counts in the order first seen).
    pub fn ranking(&self) -> (r: Vec<(Endpoint, u64)>)
        ensures
            r@.to_multiset() == self@.clients.to_multiset(),
            ranked(r@),
    {
        let mut r: Vec<(Endpoint, u64)> = Vec::new();
        let mut i: usize = 0;
        while i < self.clients.len()
            invariant
                i <= self.clients@.len(),
                r@.to_multiset() == self.clients@.take(i as int).to_multiset(),
                ranked(r@),
            decreases self.clients@.len() - i,
        {
            let e = self.clients[i];
            let mut p: usize = 0;
            while p < r.len() && r[p].1 >= e.1
                invariant
                    p <= r@.len(),
                    forall|k: int| 0 <= k < p ==> r@[k].1 >= e.1,
                decreases r@.len() - p,
            {
                p = p + 1;
            }
            let ghost before = r@;
            r.insert(p, e);
            proof {
                assert(r@ == before.insert(p as int, e));
                assert(self.clients@.take(i + 1) =~= self.clients@.take(i as int).push(e));
                assert forall|a: int, b: int| 0 <= a < b < r@.len() implies r@[a].1 >= r@[b].1 by {
                    if b < p {
                    } else if a < p && b == p {
                    } else if a < p {
                        assert(r@[b] == before[b - 1]);
                        if b - 1 >= p {
                            assert(before[b - 1].1 < e.1 || p == b - 1 || before[p as int].1 >= before[b - 1].1);
                        }
                    } else if a == p {
                        assert(r@[b] == before[b - 1]);
                        assert(before[p as int].1 < e.1);
                        assert(before[p as int].1 >= before[b - 1].1 || p as int == b - 1);
                    } else {
                        assert(r@[a] == before[a - 1] && r@[b] == before[b - 1]);
                    }
                }
            }
            i = i + 1;
        }
        assert(self.clients@.take(i as int) =~= self.clients@);
        r
    }
}

} // verus!
