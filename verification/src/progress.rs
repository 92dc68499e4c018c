//! Progress reporting. Each tick the reporter copies the shared state into a
//! `ProgressSnapshot` and renders it; this module computes everything the
//! status block shows: the processed/total counts, the elapsed time as
//! `HH:MM:SS`, the window of the three most recent hits (most-recent-last),
//! and the count of hits hidden behind that window.

use vstd::prelude::*;

use crate::aggregator::ProbeRun;

verus! {

/// How many of the most recent hits the status block lists.
pub const VISIBLE_HITS: usize = 3;

/// The decimal digit character for one digit value.
pub open spec fn dec_digit(d: int) -> char {
    if d == 0 {
        '0'
    } else if d == 1 {
        '1'
    } else if d == 2 {
        '2'
    } else if d == 3 {
        '3'
    } else if d == 4 {
        '4'
    } else if d == 5 {
        '5'
    } else if d == 6 {
        '6'
    } else if d == 7 {
        '7'
    } else if d == 8 {
        '8'
    } else {
        '9'
    }
}

/// The decimal digits of a number, most significant first.
pub open spec fn dec_str(n: nat) -> Seq<char>
    decreases n,
{
    if n < 10 {
        seq![dec_digit(n as int)]
    } else {
        dec_str(n / 10).push(dec_digit((n % 10) as int))
    }
}

/// The decimal digits, left-padded with `0` to at least two places.
pub open spec fn pad2_spec(n: nat) -> Seq<char> {
    if n < 10 {
        "0"@ + dec_str(n)
    } else {
        dec_str(n)
    }
}

/// Elapsed wall-clock seconds as `HH:MM:SS` (hours grow past two digits).
pub open spec fn hms_spec(secs: nat) -> Seq<char> {
    pad2_spec(secs / 3600) + ":"@ + pad2_spec((secs % 3600) / 60) + ":"@ + pad2_spec(secs % 60)
}

/// The window of hits the status block lists: all of them while there are at
/// most `VISIBLE_HITS`, otherwise the most recent ones, most-recent-last.
pub open spec fn visible_spec(hits: Seq<Seq<char>>) -> Seq<Seq<char>> {
    if hits.len() <= VISIBLE_HITS {
        hits
    } else {
        hits.skip(hits.len() - VISIBLE_HITS)
    }
}

/// How many hits the window hides.
pub open spec fn hidden_spec(hits: Seq<Seq<char>>) -> int {
    if hits.len() > VISIBLE_HITS {
        hits.len() - VISIBLE_HITS
    } else {
        0
    }
}

/// The window and its hidden count account for every hit: the block lists
/// exactly the hits that follow the hidden ones, and the two counts add up
/// to the whole result set.
pub proof fn lemma_window_accounts_for_all_hits(hits: Seq<Seq<char>>)
    ensures
        visible_spec(hits).len() + hidden_spec(hits) == hits.len(),
        visible_spec(hits) == hits.skip(hidden_spec(hits)),
{
    if hits.len() <= VISIBLE_HITS {
        assert(hits.skip(0) =~= hits);
    }
}

fn digit_str(d: u64) -> (r: &'static str)
    requires
        d < 10,
    ensures
        r@ == seq![dec_digit(d as int)],
{
    proof {
        reveal_strlit("0");
        reveal_strlit("1");
        reveal_strlit("2");
        reveal_strlit("3");
        reveal_strlit("4");
        reveal_strlit("5");
        reveal_strlit("6");
        reveal_strlit("7");
        reveal_strlit("8");
        reveal_strlit("9");
    }
    match d {
        0 => "0",
        1 => "1",
        2 => "2",
        3 => "3",
        4 => "4",
        5 => "5",
        6 => "6",
        7 => "7",
        8 => "8",
        _ => "9",
    }
}

/// A number as its decimal digits.
pub fn dec_string(n: u64) -> (r: String)
    ensures
        r@ == dec_str(n as nat),
    decreases n,
{
    if n < 10 {
        digit_str(n).to_owned()
    } else {
        let mut s = dec_string(n / 10);
        s.append(digit_str(n % 10));
        proof {
            assert(s@ =~= dec_str((n / 10) as nat).push(dec_digit((n % 10) as int)));
        }
        s
    }
}

fn pad2_string(n: u64) -> (r: String)
    ensures
        r@ == pad2_spec(n as nat),
{
    if n < 10 {
        let mut s = String::from_str("0");
        s.append(dec_string(n).as_str());
        s
    } else {
        dec_string(n)
    }
}

/// Formats elapsed seconds for the status block, as the wall clock shows
/// them: zero-padded hours, minutes and seconds separated by colons.
pub fn format_hms(secs: u64) -> (r: String)
    ensures
        r@ == hms_spec(secs as nat),
{
    let mut s = pad2_string(secs / 3600);
    s.append(":");
    s.append(pad2_string((secs % 3600) / 60).as_str());
    s.append(":");
    s.append(pad2_string(secs % 60).as_str());
    proof {
        assert(s@ =~= hms_spec(secs as nat));
    }
    s
}

/// The most recent hits, in discovery order, as many as the window shows.
pub fn visible_hits(hits: &Vec<String>) -> (r: Vec<String>)
    ensures
        r.deep_view() == visible_spec(hits.deep_view()),
{
    let start: usize = if hits.len() > VISIBLE_HITS {
        hits.len() - VISIBLE_HITS
    } else {
        0
    };
    let mut r: Vec<String> = Vec::new();
    let mut i: usize = start;
    while i < hits.len()
        invariant
            start <= i <= hits@.len(),
            r.deep_view() == hits.deep_view().subrange(start as int, i as int),
        decreases hits@.len() - i,
    {
        let line = hits[i].clone();
        proof {
            assert(line@ == hits.deep_view()[i as int]);
            assert(hits.deep_view().subrange(start as int, i + 1) =~= hits.deep_view().subrange(
                start as int,
                i as int,
            ).push(hits.deep_view()[i as int]));
        }
        r.push(line);
        proof {
            assert(r.deep_view() =~= r.deep_view().drop_last().push(line@));
            assert(r.deep_view().drop_last() =~= hits.deep_view().subrange(start as int, i as int));
        }
        i = i + 1;
    }
    proof {
        if hits@.len() > VISIBLE_HITS {
            assert(r.deep_view() =~= hits.deep_view().skip(
                hits.deep_view().len() - VISIBLE_HITS,
            ));
        } else {
            assert(r.deep_view() =~= hits.deep_view());
        }
    }
    r
}

/// How many hits the visible window leaves out.
pub fn hidden_hit_count(hits: &Vec<String>) -> (n: usize)
    ensures
        n as int == hidden_spec(hits.deep_view()),
{
    if hits.len() > VISIBLE_HITS {
        hits.len() - VISIBLE_HITS
    } else {
        0
    }
}

/// A transient, read-only copy of the run state, taken each reporter tick.
pub struct ProgressSnapshot {
    pub processed: usize,
    pub total: usize,
    pub hits: Vec<String>,
    pub elapsed_secs: u64,
}

/// Copies the shared run state into a snapshot under the lock. The snapshot
/// carries everything the status block renders; the run itself stays
/// untouched.
pub fn snapshot_of(run: &ProbeRun, elapsed_secs: u64) -> (r: ProgressSnapshot)
    requires
        run.wf(),
    ensures
        r.processed as int == run.processed_spec(),
        r.total as int == run.total_spec(),
        r.hits.deep_view() == run.hits(),
        r.elapsed_secs == elapsed_secs,
        r.processed <= r.total,
        r.hits.deep_view().len() <= r.processed as int,
{
    ProgressSnapshot {
        processed: run.processed(),
        total: run.total(),
        hits: run.snapshot_hits(),
        elapsed_secs,
    }
}

impl ProgressSnapshot {
    /// The hit lines the status block lists for this snapshot.
    pub fn visible(&self) -> (r: Vec<String>)
        ensures
            r.deep_view() == visible_spec(self.hits.deep_view()),
    {
        visible_hits(&self.hits)
    }

    /// The count shown as "and N more" beneath the window; zero means the
    /// window already lists every hit.
    pub fn hidden(&self) -> (n: usize)
        ensures
            n as int == hidden_spec(self.hits.deep_view()),
    {
        hidden_hit_count(&self.hits)
    }

    /// The elapsed time as the status block prints it.
    pub fn elapsed_display(&self) -> (r: String)
        ensures
            r@ == hms_spec(self.elapsed_secs as nat),
    {
        format_hms(self.elapsed_secs)
    }
}

} // verus!
