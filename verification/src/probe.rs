//! The probe side of the engine: forming one target URL per candidate and
//! classifying what a settled HTTP request means. The request itself is made
//! by the driver; this module decides which URL each task gets and whether a
//! settled response counts as a hit (transport success and a 2xx status).

use vstd::prelude::*;

verus! {

/// The base URL with a single trailing slash removed, so that joining with
/// `/` never produces a doubled separator.
pub open spec fn strip_base_spec(base: Seq<char>) -> Seq<char> {
    if base.len() > 0 && base.last() == '/' {
        base.drop_last()
    } else {
        base
    }
}

/// The full URL probed for a candidate: stripped base, one slash, candidate.
pub open spec fn probe_url_spec(base: Seq<char>, candidate: Seq<char>) -> Seq<char> {
    strip_base_spec(base) + "/"@ + candidate
}

/// No two elements of the sequence are equal.
pub open spec fn distinct_seq<A>(s: Seq<A>) -> bool {
    forall|i: int, j: int| 0 <= i < j < s.len() ==> s[i] != s[j]
}

/// Joins the base URL and one candidate path.
pub fn build_url(base: &str, candidate: &str) -> (r: String)
    ensures
        r@ == probe_url_spec(base@, candidate@),
{
    let n = base.unicode_len();
    let stripped: &str = if n > 0 && base.get_char(n - 1) == '/' {
        let s = base.substring_char(0, n - 1);
        proof {
            assert(s@ =~= base@.drop_last());
        }
        s
    } else {
        base
    };
    let mut url = stripped.to_owned();
    url.append("/");
    url.append(candidate);
    url
}

/// Distinct candidates give distinct URLs: the probe target determines the
/// candidate it was built from, because both URLs share the same prefix.
pub proof fn lemma_probe_url_injective(base: Seq<char>, c1: Seq<char>, c2: Seq<char>)
    requires
        probe_url_spec(base, c1) == probe_url_spec(base, c2),
    ensures
        c1 == c2,
{
    let p = strip_base_spec(base) + "/"@;
    assert(probe_url_spec(base, c1) =~= p + c1);
    assert(probe_url_spec(base, c2) =~= p + c2);
    assert(c1 =~= (p + c1).subrange(p.len() as int, (p + c1).len() as int));
    assert(c2 =~= (p + c2).subrange(p.len() as int, (p + c2).len() as int));
}

/// A deduplicated candidate list maps to a duplicate-free URL list.
pub proof fn lemma_distinct_candidates_distinct_urls(
    base: Seq<char>,
    candidates: Seq<Seq<char>>,
    urls: Seq<Seq<char>>,
)
    requires
        distinct_seq(candidates),
        urls.len() == candidates.len(),
        forall|i: int| 0 <= i < urls.len() ==> urls[i] == probe_url_spec(base, candidates[i]),
    ensures
        distinct_seq(urls),
{
    assert forall|i: int, j: int| 0 <= i < j < urls.len() implies urls[i] != urls[j] by {
        if urls[i] == urls[j] {
            lemma_probe_url_injective(base, candidates[i], candidates[j]);
        }
    }
}

/// One planned probe target per candidate, in candidate order. The fan-out
/// spawns exactly one task per element of this plan, so its length pins the
/// task count to the candidate count.
pub fn plan_probes(base: &str, candidates: &Vec<String>) -> (r: Vec<String>)
    ensures
        r@.len() == candidates@.len(),
        forall|i: int| 0 <= i < r@.len() ==> r@[i]@ == probe_url_spec(base@, candidates@[i]@),
{
    let mut r: Vec<String> = Vec::new();
    let mut i: usize = 0;
    while i < candidates.len()
        invariant
            0 <= i <= candidates@.len(),
            r@.len() == i,
            forall|k: int| 0 <= k < i ==> r@[k]@ == probe_url_spec(base@, candidates@[k]@),
        decreases candidates@.len() - i,
    {
        let url = build_url(base, candidates[i].as_str());
        r.push(url);
        i = i + 1;
    }
    r
}

/// What one settled probe reported: a confirmed URL, or nothing.
pub enum ProbeOutcome {
    Hit { url: String },
    Miss,
}

impl ProbeOutcome {
    /// Whether this outcome confirms its URL.
    pub open spec fn is_hit(self) -> bool {
        self is Hit
    }

    /// The confirmed URL of a hit (meaningful only for hits).
    pub open spec fn hit_url(self) -> Seq<char>
        recommends
            self.is_hit(),
    {
        match self {
            ProbeOutcome::Hit { url } => url@,
            ProbeOutcome::Miss => Seq::empty(),
        }
    }
}

/// A status code in the HTTP success range.
pub open spec fn is_success_code(status: u16) -> bool {
    200 <= status < 300
}

/// Classifies one settled request: a hit exactly when the transport succeeded
/// and the status is 2xx; every other outcome is a silent miss.
pub fn classify_response(url: &str, transport_ok: bool, status: u16) -> (r: ProbeOutcome)
    ensures
        r.is_hit() == (transport_ok && is_success_code(status)),
        r.is_hit() ==> r.hit_url() == url@,
{
    if transport_ok && status >= 200 && status < 300 {
        ProbeOutcome::Hit { url: url.to_owned() }
    } else {
        ProbeOutcome::Miss
    }
}

} // verus!
