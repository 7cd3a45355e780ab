//! Bounded-concurrency coordination: the state machine that drives probing
//! across the full domain list under a concurrency ceiling.
//!
//! The caller's event loop asks `launch` for the next domain to probe (the
//! coordinator refuses while the cap is reached), performs the two lookups
//! for it, and hands the classified status back through `complete`. Statuses
//! are collected in completion order, which the caller is free to choose:
//! nothing here ties a completion to the launch order.

use vstd::prelude::*;
use vstd::multiset::Multiset;
use crate::status::DomainStatus;

verus! {

broadcast use vstd::seq_lib::group_to_multiset_ensures;

/// The names of a domain list, as character sequences.
pub open spec fn names_of(s: Seq<String>) -> Seq<Seq<char>> {
    s.map_values(|d: String| d@)
}

/// The names the statuses of a result list speak of.
pub open spec fn status_names_of(s: Seq<DomainStatus>) -> Seq<Seq<char>> {
    s.map_values(|st: DomainStatus| st.domain@)
}

/// Drives probing across a domain list with at most `limit` probes in
/// flight at once, collecting one status per input domain.
pub struct Coordinator {
    /// The full input list, in submission order.
    pub domains: Vec<String>,
    /// How many domains have been handed out for probing so far; the
    /// domains at indices below `next` are launched, the rest are queued.
    pub next: usize,
    /// The names handed out for probing whose status has not come back yet.
    pub in_flight: Vec<String>,
    /// The concurrency ceiling.
    pub limit: usize,
    /// The collected statuses, in completion order.
    pub results: Vec<DomainStatus>,
}

impl Coordinator {
    /// The names launched so far, with multiplicity.
    pub open spec fn launched_names(self) -> Multiset<Seq<char>> {
        names_of(self.domains@.take(self.next as int)).to_multiset()
    }

    /// The names currently in flight, with multiplicity.
    pub open spec fn in_flight_names(self) -> Multiset<Seq<char>> {
        names_of(self.in_flight@).to_multiset()
    }

    /// The names the collected statuses speak of, with multiplicity.
    pub open spec fn collected_names(self) -> Multiset<Seq<char>> {
        status_names_of(self.results@).to_multiset()
    }

    /// Holds in every reachable state: the ceiling is respected, launches
    /// never outrun the input list, every launched name is either still in
    /// flight or accounted for by exactly one collected status — so no
    /// domain is dropped and none is probed twice — and every collected
    /// status is well formed.
    pub open spec fn wf(self) -> bool {
        &&& 1 <= self.limit
        &&& self.in_flight@.len() <= self.limit
        &&& self.next <= self.domains@.len()
        &&& self.in_flight@.len() + self.results@.len() == self.next
        &&& self.launched_names() == self.in_flight_names().add(self.collected_names())
        &&& forall|i: int|
            0 <= i < self.results@.len() ==> (#[trigger] self.results@[i]).wf()
    }

    /// A run is finished when every domain has been launched and every
    /// launched probe has completed.
    pub open spec fn finished(self) -> bool {
        self.next == self.domains@.len() && self.in_flight@.len() == 0
    }

    /// Starts a run over `domains` with concurrency ceiling `limit`: nothing
    /// launched, nothing in flight, nothing collected. On an empty list the
    /// run is already finished, with an empty result.
    pub fn new(domains: Vec<String>, limit: usize) -> (c: Coordinator)
        requires
            1 <= limit,
        ensures
            c.wf(),
            c.domains == domains,
            c.next == 0,
            c.in_flight@.len() == 0,
            c.limit == limit,
            c.results@.len() == 0,
            domains@.len() == 0 ==> c.finished(),
    {
        let c = Coordinator {
            domains,
            next: 0,
            in_flight: Vec::new(),
            limit,
            results: Vec::new(),
        };
        proof {
            assert(c.domains@.take(0) =~= Seq::<String>::empty());
            assert(names_of(Seq::<String>::empty()) =~= Seq::<Seq<char>>::empty());
            assert(names_of(c.in_flight@) =~= Seq::<Seq<char>>::empty());
            assert(status_names_of(c.results@) =~= Seq::<Seq<char>>::empty());
            assert(c.launched_names() =~= c.in_flight_names().add(c.collected_names()));
        }
        c
    }

    /// Hands out the next queued domain, or refuses: `None` exactly when
    /// the queue is exhausted or `limit` probes are already in flight, and
    /// then nothing changes. On `Some`, the domain at position `next` of the
    /// input list enters flight and the launch point advances by one.
    pub fn launch(&mut self) -> (d: Option<String>)
        requires
            old(self).wf(),
        ensures
            final(self).wf(),
            final(self).domains == old(self).domains,
            final(self).limit == old(self).limit,
            final(self).results == old(self).results,
            d is None <==> (old(self).next == old(self).domains@.len()
                || old(self).in_flight@.len() == old(self).limit),
            d is None ==> *final(self) == *old(self),
            d matches Some(name) ==> {
                &&& name@ == old(self).domains@[old(self).next as int]@
                &&& final(self).next == old(self).next + 1
                &&& final(self).in_flight@.len() == old(self).in_flight@.len() + 1
                &&& final(self).in_flight_names()
                    == old(self).in_flight_names().insert(name@)
            },
    {
        if self.next < self.domains.len() && self.in_flight.len() < self.limit {
            let ghost pre = *self;
            let name = self.domains[self.next].clone();
            self.in_flight.push(self.domains[self.next].clone());
            self.next = self.next + 1;
            proof {
                let v = pre.domains@[pre.next as int]@;
                assert(self.domains@.take(self.next as int)
                    =~= pre.domains@.take(pre.next as int).push(pre.domains@[pre.next as int]));
                assert(names_of(self.domains@.take(self.next as int))
                    =~= names_of(pre.domains@.take(pre.next as int)).push(v));
                assert(names_of(self.in_flight@)
                    =~= names_of(pre.in_flight@).push(v));
                assert(self.launched_names() =~= pre.launched_names().insert(v));
                assert(self.in_flight_names() =~= pre.in_flight_names().insert(v));
                assert(pre.launched_names().insert(v)
                    =~= pre.in_flight_names().insert(v).add(pre.collected_names()));
            }
            Some(name)
        } else {
            None
        }
    }

    /// Whether a probe for `name` is currently in flight.
    pub fn has_in_flight(&self, name: &String) -> (b: bool)
        ensures
            b == (self.in_flight_names().count(name@) >= 1),
    {
        let mut j: usize = 0;
        while j < self.in_flight.len()
            invariant
                j <= self.in_flight@.len(),
                forall|k: int| 0 <= k < j ==> self.in_flight@[k]@ != name@,
            decreases self.in_flight@.len() - j,
        {
            if self.in_flight[j].eq(name) {
                proof {
                    assert(names_of(self.in_flight@)[j as int] == name@);
                    assert(names_of(self.in_flight@).contains(name@));
                }
                return true;
            }
            j = j + 1;
        }
        proof {
            assert(forall|k: int|
                0 <= k < names_of(self.in_flight@).len()
                    ==> names_of(self.in_flight@)[k] != name@);
            assert(!names_of(self.in_flight@).contains(name@));
        }
        false
    }

    /// Collects the status of one completed probe: the name it speaks of
    /// leaves flight and the status is appended to the results, so no
    /// completion is ever dropped and none is counted twice.
    pub fn complete(&mut self, status: DomainStatus)
        requires
            old(self).wf(),
            old(self).in_flight_names().count(status.domain@) >= 1,
            status.wf(),
        ensures
            final(self).wf(),
            final(self).domains == old(self).domains,
            final(self).limit == old(self).limit,
            final(self).next == old(self).next,
            final(self).in_flight@.len() == old(self).in_flight@.len() - 1,
            final(self).in_flight_names()
                == old(self).in_flight_names().remove(status.domain@),
            final(self).results@ == old(self).results@.push(status),
    {
        let ghost pre = *self;
        let j = find_name_index(&self.in_flight, &status.domain);
        let _name = self.in_flight.remove(j);
        self.results.push(status);
        proof {
            let v = status.domain@;
            assert(names_of(self.in_flight@)
                =~= names_of(pre.in_flight@).remove(j as int));
            assert(names_of(pre.in_flight@)[j as int] == v);
            assert(self.in_flight_names() =~= pre.in_flight_names().remove(v));
            assert(status_names_of(self.results@)
                =~= status_names_of(pre.results@).push(v));
            assert(self.collected_names() =~= pre.collected_names().insert(v));
            assert(pre.in_flight_names().count(v) >= 1);
            assert(pre.in_flight_names().remove(v).add(pre.collected_names().insert(v))
                =~= pre.in_flight_names().add(pre.collected_names()));
        }
    }

    /// Whether the run is finished (see `finished`).
    pub fn is_finished(&self) -> (b: bool)
        ensures
            b == self.finished(),
    {
        self.next == self.domains.len() && self.in_flight.len() == 0
    }
}

/// The index of one in-flight occurrence of `name`.
fn find_name_index(v: &Vec<String>, name: &String) -> (j: usize)
    requires
        names_of(v@).to_multiset().count(name@) >= 1,
    ensures
        j < v@.len(),
        v@[j as int]@ == name@,
{
    proof {
        assert(names_of(v@).contains(name@));
    }
    let mut j: usize = 0;
    while j < v.len()
        invariant
            j <= v@.len(),
            names_of(v@).contains(name@),
            forall|k: int| 0 <= k < j ==> v@[k]@ != name@,
        decreases v@.len() - j,
    {
        if v[j].eq(name) {
            return j;
        }
        j = j + 1;
    }
    proof {
        let k = choose|k: int|
            0 <= k < names_of(v@).len() && names_of(v@)[k] == name@;
        assert(v@[k]@ == name@);
        assert(false);
    }
    0
}

/// The concurrency bound: in every reachable coordinator state, the number
/// of probes in flight never exceeds the configured ceiling.
pub proof fn lemma_in_flight_bounded(c: Coordinator)
    requires
        c.wf(),
    ensures
        c.in_flight@.len() <= c.limit,
{
}

/// Count and identity preservation: a finished run has collected exactly
/// one status per input domain — the names its results speak of are, with
/// multiplicity, exactly the input names — whatever the ceiling and
/// whatever the completion order. In particular, a run over the empty list
/// finishes with an empty result.
pub proof fn lemma_finished_count(c: Coordinator)
    requires
        c.wf(),
        c.finished(),
    ensures
        c.results@.len() == c.domains@.len(),
        c.collected_names() == names_of(c.domains@).to_multiset(),
{
    assert(c.domains@.take(c.next as int) =~= c.domains@);
    assert(names_of(c.in_flight@) =~= Seq::<Seq<char>>::empty());
    assert(c.in_flight_names() =~= Multiset::<Seq<char>>::empty());
    assert(c.in_flight_names().add(c.collected_names()) =~= c.collected_names());
}

} // verus!
