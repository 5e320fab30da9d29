//! The control side of the rendezvous: how many endpoint records are still
//! expected, and which have arrived, in arrival order. The accept loop that
//! feeds it records lives with the sockets, outside this crate's logic.
use vstd::prelude::*;
use crate::text::texts;

verus! {

/// What a collector holds: how many records it waits for, and those it took.
pub struct CollectorView {
    pub expected: nat,
    pub received: Seq<Seq<char>>,
}

impl CollectorView {
    /// A collector never holds more records than it expects.
    pub open spec fn wf(self) -> bool {
        self.received.len() <= self.expected
    }

    /// Every expected record has arrived.
    pub open spec fn complete(self) -> bool {
        self.received.len() == self.expected
    }

    /// The collector after one more record is offered: taken while records are
    /// still expected, refused once all have arrived.
    pub open spec fn offer(self, record: Seq<char>) -> CollectorView {
        if self.received.len() < self.expected {
            CollectorView { expected: self.expected, received: self.received.push(record) }
        } else {
            self
        }
    }

    /// The collector after `arrivals` are offered one by one.
    pub open spec fn offer_all(self, arrivals: Seq<Seq<char>>) -> CollectorView
        decreases arrivals.len(),
    {
        if arrivals.len() == 0 {
            self
        } else {
            self.offer_all(arrivals.drop_last()).offer(arrivals.last())
        }
    }
}

/// Collects one endpoint record per rank.
pub struct EndpointCollector {
    expected: usize,
    endpoints: Vec<String>,
}

impl View for EndpointCollector {
    type V = CollectorView;

    closed spec fn view(&self) -> CollectorView {
        CollectorView { expected: self.expected as nat, received: texts(self.endpoints@) }
    }
}

impl EndpointCollector {
    /// A collector that waits for `expected` records and holds none yet.
    pub fn new(expected: usize) -> (r: Self)
        ensures
            r@ == (CollectorView { expected: expected as nat, received: seq![] }),
    {
        let r = EndpointCollector { expected, endpoints: Vec::new() };
        assert(texts(r.endpoints@) =~= seq![]);
        r
    }

    /// Whether every expected record has arrived.
    pub fn is_complete(&self) -> (r: bool)
        requires
            self@.wf(),
        ensures
            r == self@.complete(),
    {
        self.endpoints.len() == self.expected
    }

    /// How many records are still expected.
    pub fn remaining(&self) -> (r: usize)
        requires
            self@.wf(),
        ensures
            r == self@.expected - self@.received.len(),
    {
        self.expected - self.endpoints.len()
    }

    /// Offers the record read from one connection; returns whether it was
    /// taken, which it is exactly while records are still expected.
    pub fn offer(&mut self, record: String) -> (taken: bool)
        requires
            old(self)@.wf(),
        ensures
            final(self)@ == old(self)@.offer(record@),
            final(self)@.wf(),
            taken == (old(self)@.received.len() < old(self)@.expected),
    {
        if self.endpoints.len() < self.expected {
            let ghost before = self.endpoints@;
            self.endpoints.push(record);
            assert(texts(self.endpoints@) =~= texts(before).push(record@));
            true
        } else {
            false
        }
    }

    /// The records, in arrival order, once all have arrived.
    pub fn into_endpoints(self) -> (r: Vec<String>)
        requires
            self@.complete(),
        ensures
            texts(r@) == self@.received,
            r@.len() == self@.expected,
    {
        self.endpoints
    }
}

/// Offered any arrivals one by one, a fresh collector for `n` records keeps the
/// first `n` in arrival order and no more, and is complete exactly when at
/// least `n` have been offered.
pub proof fn lemma_collects_exactly(n: nat, arrivals: Seq<Seq<char>>)
    ensures
        ({
            let c = (CollectorView { expected: n, received: seq![] }).offer_all(arrivals);
            &&& c.expected == n
            &&& c.wf()
            &&& c.received == arrivals.take(
                if arrivals.len() < n {
                    arrivals.len() as int
                } else {
                    n as int
                },
            )
            &&& c.complete() <==> arrivals.len() >= n
        }),
    decreases arrivals.len(),
{
    if arrivals.len() > 0 {
        lemma_collects_exactly(n, arrivals.drop_last());
        let k = arrivals.len() - 1;
        if k < n {
            assert(arrivals.take(k).push(arrivals.last()) =~= arrivals.take(k + 1));
        }
        assert(arrivals.drop_last().take(if k < n { k as int } else { n as int }) =~= arrivals.take(
            if k < n { k as int } else { n as int },
        ));
    } else {
        assert(arrivals.take(0) =~= seq![]);
    }
}

} // verus!
