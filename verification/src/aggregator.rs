//! Shared result aggregation. `ResultSet` is the append-only collection of
//! confirmed URLs; `ProbeRun` couples it with the processed counter that every
//! settled probe bumps exactly once. The driver keeps one `ProbeRun` behind a
//! mutex and feeds it each settled outcome; everything proved here holds for
//! any completion order the scheduler produces.

use vstd::prelude::*;

use crate::probe::{distinct_seq, lemma_probe_url_injective, probe_url_spec, ProbeOutcome};

verus! {

broadcast use vstd::std_specs::vec::vec_clone_deep_view_proof;

/// The ordered, append-only collection of confirmed URLs.
pub struct ResultSet {
    urls: Vec<String>,
}

impl View for ResultSet {
    type V = Seq<Seq<char>>;

    closed spec fn view(&self) -> Seq<Seq<char>> {
        self.urls.deep_view()
    }
}

impl ResultSet {
    /// An empty result set.
    pub fn new() -> (r: ResultSet)
        ensures
            r@ == Seq::<Seq<char>>::empty(),
    {
        let r = ResultSet { urls: Vec::new() };
        proof {
            assert(r@ =~= Seq::<Seq<char>>::empty());
        }
        r
    }

    /// Appends one confirmed URL. Nothing is ever removed or reordered: the
    /// old contents stay as a prefix, so any snapshot a concurrent reader
    /// took remains a prefix of every later one.
    pub fn append(&mut self, url: String)
        ensures
            final(self)@ == old(self)@.push(url@),
            old(self)@.is_prefix_of(final(self)@),
    {
        self.urls.push(url);
        proof {
            assert(final(self)@ =~= old(self)@.push(url@));
            assert(old(self)@ =~= final(self)@.subrange(0, old(self)@.len() as int));
        }
    }

    /// How many URLs have been confirmed so far.
    pub fn len(&self) -> (n: usize)
        ensures
            n == self@.len(),
    {
        self.urls.len()
    }

    /// A copy-on-read view, safe to render while producers keep appending to
    /// the original under the lock.
    pub fn snapshot(&self) -> (r: Vec<String>)
        ensures
            r.deep_view() == self@,
    {
        self.urls.clone()
    }
}

/// The hit URLs that a sequence of settled outcomes accumulates, in
/// completion order.
pub open spec fn hits_of(outcomes: Seq<ProbeOutcome>) -> Seq<Seq<char>>
    decreases outcomes.len(),
{
    if outcomes.len() == 0 {
        Seq::empty()
    } else {
        let rest = hits_of(outcomes.drop_last());
        if outcomes.last().is_hit() {
            rest.push(outcomes.last().hit_url())
        } else {
            rest
        }
    }
}

/// One probing run: the fixed task total, the processed counter, and the
/// shared result set.
pub struct ProbeRun {
    total: usize,
    processed: usize,
    results: ResultSet,
}

impl ProbeRun {
    /// The number of probe tasks this run was started with.
    pub closed spec fn total_spec(self) -> int {
        self.total as int
    }

    /// How many probe tasks have settled, hit or miss.
    pub closed spec fn processed_spec(self) -> int {
        self.processed as int
    }

    /// The confirmed URLs in discovery order.
    pub closed spec fn hits(self) -> Seq<Seq<char>> {
        self.results@
    }

    /// The run invariant: the counter never passes the total, and there are
    /// never more hits than settled probes.
    pub open spec fn wf(self) -> bool {
        0 <= self.processed_spec() <= self.total_spec() && self.hits().len()
            <= self.processed_spec()
    }

    /// A fresh run over `total` planned probes.
    pub fn new(total: usize) -> (r: ProbeRun)
        ensures
            r.wf(),
            r.total_spec() == total as int,
            r.processed_spec() == 0,
            r.hits() == Seq::<Seq<char>>::empty(),
    {
        ProbeRun { total, processed: 0, results: ResultSet::new() }
    }

    /// Records one settled probe: the processed counter moves up by exactly
    /// one whatever the outcome was, and a hit appends its URL while a miss
    /// leaves the result set untouched. Earlier results stay as a prefix.
    pub fn record_completion(&mut self, outcome: &ProbeOutcome)
        requires
            old(self).wf(),
            old(self).processed_spec() < old(self).total_spec(),
        ensures
            final(self).wf(),
            final(self).total_spec() == old(self).total_spec(),
            final(self).processed_spec() == old(self).processed_spec() + 1,
            outcome.is_hit() ==> final(self).hits() == old(self).hits().push(outcome.hit_url()),
            !outcome.is_hit() ==> final(self).hits() == old(self).hits(),
            old(self).hits().is_prefix_of(final(self).hits()),
    {
        match outcome {
            ProbeOutcome::Hit { url } => {
                self.results.append(url.clone());
            },
            ProbeOutcome::Miss => {},
        }
        self.processed = self.processed + 1;
        proof {
            assert(old(self).hits() =~= self.hits().subrange(0, old(self).hits().len() as int));
        }
    }

    /// How many probes have settled.
    pub fn processed(&self) -> (n: usize)
        ensures
            n == self.processed_spec(),
    {
        self.processed
    }

    /// The fixed task total.
    pub fn total(&self) -> (n: usize)
        ensures
            n == self.total_spec(),
    {
        self.total
    }

    /// How many hits have been confirmed so far.
    pub fn hit_count(&self) -> (n: usize)
        ensures
            n == self.hits().len(),
    {
        self.results.len()
    }

    /// A copy of the confirmed URLs, taken under the lock.
    pub fn snapshot_hits(&self) -> (r: Vec<String>)
        ensures
            r.deep_view() == self.hits(),
    {
        self.results.snapshot()
    }

    /// Whether every planned probe has settled.
    pub fn is_done(&self) -> (done: bool)
        ensures
            done == (self.processed_spec() == self.total_spec()),
    {
        self.processed == self.total
    }
}

/// Settles a whole batch of outcomes against a fresh run: one completion per
/// planned task. The counter reaches the total exactly, regardless of how
/// many outcomes were hits, and the result set ends as the fold of the hits
/// in completion order.
pub fn drain_outcomes(total: usize, outcomes: &Vec<ProbeOutcome>) -> (r: ProbeRun)
    requires
        outcomes@.len() == total as int,
    ensures
        r.wf(),
        r.total_spec() == total as int,
        r.processed_spec() == total as int,
        r.hits() == hits_of(outcomes@),
{
    let mut run = ProbeRun::new(total);
    let mut i: usize = 0;
    while i < outcomes.len()
        invariant
            0 <= i <= outcomes@.len(),
            outcomes@.len() == total as int,
            run.wf(),
            run.total_spec() == total as int,
            run.processed_spec() == i as int,
            run.hits() == hits_of(outcomes@.take(i as int)),
        decreases outcomes@.len() - i,
    {
        run.record_completion(&outcomes[i]);
        proof {
            assert(outcomes@.take(i + 1).drop_last() =~= outcomes@.take(i as int));
            assert(outcomes@.take(i + 1).last() == outcomes@[i as int]);
        }
        i = i + 1;
    }
    proof {
        assert(outcomes@.take(outcomes@.len() as int) =~= outcomes@);
    }
    run
}

/// Every accumulated hit URL is the URL of some hit outcome.
proof fn lemma_hits_of_membership(outcomes: Seq<ProbeOutcome>)
    ensures
        forall|x: Seq<char>| #[trigger]
            hits_of(outcomes).contains(x) ==> exists|i: int|
                0 <= i < outcomes.len() && #[trigger] outcomes[i].is_hit() && outcomes[i].hit_url()
                    == x,
    decreases outcomes.len(),
{
    if outcomes.len() > 0 {
        let prefix = outcomes.drop_last();
        lemma_hits_of_membership(prefix);
        assert forall|x: Seq<char>| #[trigger] hits_of(outcomes).contains(x) implies exists|i: int|
            0 <= i < outcomes.len() && #[trigger] outcomes[i].is_hit() && outcomes[i].hit_url()
                == x by {
            if outcomes.last().is_hit() && x == outcomes.last().hit_url() {
                assert(outcomes[outcomes.len() - 1].is_hit());
            } else {
                assert(hits_of(prefix).contains(x));
                let i = choose|i: int|
                    0 <= i < prefix.len() && #[trigger] prefix[i].is_hit() && prefix[i].hit_url()
                        == x;
                assert(outcomes[i].is_hit() && outcomes[i].hit_url() == x);
            }
        }
    }
}

/// If no URL is reported as a hit by two different outcomes, the accumulated
/// result set holds no duplicates.
pub proof fn lemma_distinct_hit_urls_no_duplicates(outcomes: Seq<ProbeOutcome>)
    requires
        forall|i: int, j: int|
            0 <= i < j < outcomes.len() && outcomes[i].is_hit() && outcomes[j].is_hit()
                ==> #[trigger] outcomes[i].hit_url() != #[trigger] outcomes[j].hit_url(),
    ensures
        distinct_seq(hits_of(outcomes)),
    decreases outcomes.len(),
{
    if outcomes.len() > 0 {
        let prefix = outcomes.drop_last();
        lemma_distinct_hit_urls_no_duplicates(prefix);
        let h = hits_of(prefix);
        if outcomes.last().is_hit() {
            let u = outcomes.last().hit_url();
            if h.contains(u) {
                lemma_hits_of_membership(prefix);
                let i = choose|i: int|
                    0 <= i < prefix.len() && #[trigger] prefix[i].is_hit() && prefix[i].hit_url()
                        == u;
                assert(outcomes[i].is_hit() && outcomes[i].hit_url() == u);
                assert(outcomes[outcomes.len() - 1].is_hit());
                assert(false);
            }
            assert forall|i: int, j: int|
                0 <= i < j < hits_of(outcomes).len() implies hits_of(outcomes)[i] != hits_of(
                outcomes,
            )[j] by {
                if j < h.len() {
                    assert(h[i] != h[j]);
                } else {
                    assert(hits_of(outcomes)[j] == u);
                    assert(h.contains(h[i]));
                }
            }
        }
    }
}

/// The result set only ever grows: the hits seen at any point of the run are
/// a prefix of the hits at every later point, whichever snapshot a concurrent
/// observer takes.
pub proof fn lemma_hits_monotone(outcomes: Seq<ProbeOutcome>, k: int)
    requires
        0 <= k <= outcomes.len(),
    ensures
        hits_of(outcomes.take(k)).is_prefix_of(hits_of(outcomes)),
    decreases outcomes.len(),
{
    if k == outcomes.len() {
        assert(outcomes.take(k) =~= outcomes);
        assert(hits_of(outcomes).is_prefix_of(hits_of(outcomes)));
    } else {
        let prefix = outcomes.drop_last();
        assert(outcomes.take(k) =~= prefix.take(k));
        lemma_hits_monotone(prefix, k);
        let a = hits_of(prefix.take(k));
        let b = hits_of(prefix);
        let c = hits_of(outcomes);
        assert(a.is_prefix_of(b));
        assert(b.is_prefix_of(c)) by {
            assert(b =~= c.subrange(0, b.len() as int));
        }
        assert(a =~= c.subrange(0, a.len() as int));
    }
}

/// Pre-deduplicated candidates yield a duplicate-free result set: when each
/// settled outcome is the probe of its own candidate (no candidate settles
/// twice), no URL can be confirmed twice, in any completion order.
pub proof fn lemma_result_set_no_duplicates(
    base: Seq<char>,
    candidates: Seq<Seq<char>>,
    outcomes: Seq<ProbeOutcome>,
    source: Seq<int>,
)
    requires
        distinct_seq(candidates),
        source.len() == outcomes.len(),
        forall|k: int| 0 <= k < outcomes.len() ==> 0 <= #[trigger] source[k] < candidates.len(),
        forall|k: int, l: int| 0 <= k < l < outcomes.len() ==> source[k] != source[l],
        forall|k: int|
            0 <= k < outcomes.len() && #[trigger] outcomes[k].is_hit() ==> outcomes[k].hit_url()
                == probe_url_spec(base, candidates[source[k]]),
    ensures
        distinct_seq(hits_of(outcomes)),
{
    assert forall|i: int, j: int|
        0 <= i < j < outcomes.len() && outcomes[i].is_hit() && outcomes[j].is_hit()
            implies #[trigger] outcomes[i].hit_url() != #[trigger] outcomes[j].hit_url() by {
        if outcomes[i].hit_url() == outcomes[j].hit_url() {
            lemma_probe_url_injective(base, candidates[source[i]], candidates[source[j]]);
        }
    }
    lemma_distinct_hit_urls_no_duplicates(outcomes);
}

} // verus!
