//! The candidate source: merging the lines of every wordlist file into one
//! ordered, deduplicated candidate list. The files themselves are read by the
//! driver; this module owns the merge, its idempotence, and the fatal
//! "no candidates" condition that aborts a run before any probing starts.

use vstd::prelude::*;

use crate::probe::distinct_seq;

verus! {

/// All lines of all files, in file order then line order.
pub open spec fn all_lines(files: Seq<Seq<Seq<char>>>) -> Seq<Seq<char>>
    decreases files.len(),
{
    if files.len() == 0 {
        Seq::empty()
    } else {
        all_lines(files.drop_last()) + files.last()
    }
}

/// The lines with every repeated occurrence removed: each line keeps its
/// first position and later copies are dropped.
pub open spec fn dedup_spec(lines: Seq<Seq<char>>) -> Seq<Seq<char>>
    decreases lines.len(),
{
    if lines.len() == 0 {
        Seq::empty()
    } else {
        let rest = dedup_spec(lines.drop_last());
        if rest.contains(lines.last()) {
            rest
        } else {
            rest.push(lines.last())
        }
    }
}

/// The conditions that abort a run before it produces anything.
#[derive(Clone, Copy, Debug, PartialEq, Eq, Structural)]
pub enum FatalError {
    /// The merged wordlist sources held no candidate at all.
    NoCandidates,
    /// The output file could not be created.
    OutputUnavailable,
}

impl FatalError {
    /// The message surfaced to the operator.
    pub fn message(&self) -> (r: &'static str)
        ensures
            *self is NoCandidates ==> r@ == "no candidates"@,
            *self is OutputUnavailable ==> r@ == "cannot create output file"@,
    {
        match self {
            FatalError::NoCandidates => "no candidates",
            FatalError::OutputUnavailable => "cannot create output file",
        }
    }
}

/// Whether a line already occurs in the accumulated candidate list.
fn contains_line(lines: &Vec<String>, line: &String) -> (b: bool)
    ensures
        b == lines.deep_view().contains(line@),
{
    let mut i: usize = 0;
    while i < lines.len()
        invariant
            0 <= i <= lines@.len(),
            forall|k: int| 0 <= k < i ==> lines@[k]@ != line@,
        decreases lines@.len() - i,
    {
        if lines[i] == *line {
            proof {
                assert(lines.deep_view()[i as int] == line@);
            }
            return true;
        }
        i = i + 1;
    }
    proof {
        assert forall|k: int| 0 <= k < lines.deep_view().len() implies lines.deep_view()[k]
            != line@ by {
            assert(lines@[k]@ != line@);
        }
    }
    false
}

/// Concatenates the lines of every file, keeping file order.
fn concat_lines(files: &Vec<Vec<String>>) -> (r: Vec<String>)
    ensures
        r.deep_view() == all_lines(files.deep_view()),
{
    let mut r: Vec<String> = Vec::new();
    proof {
        assert(r.deep_view() =~= all_lines(files.deep_view().take(0)));
    }
    let mut i: usize = 0;
    while i < files.len()
        invariant
            0 <= i <= files@.len(),
            r.deep_view() == all_lines(files.deep_view().take(i as int)),
        decreases files@.len() - i,
    {
        let ghost before = r.deep_view();
        let file = &files[i];
        let mut j: usize = 0;
        while j < file.len()
            invariant
                0 <= j <= file@.len(),
                r.deep_view() == before + file.deep_view().take(j as int),
            decreases file@.len() - j,
        {
            let line = file[j].clone();
            proof {
                assert(file.deep_view().take(j + 1) =~= file.deep_view().take(j as int).push(
                    file@[j as int]@,
                ));
                assert((before + file.deep_view().take(j + 1)) =~= (before + file.deep_view().take(
                    j as int,
                )).push(file@[j as int]@));
            }
            r.push(line);
            proof {
                assert(r.deep_view() =~= before + file.deep_view().take(j + 1));
            }
            j = j + 1;
        }
        proof {
            assert(file.deep_view().take(file@.len() as int) =~= file.deep_view());
            assert(files.deep_view().take(i + 1).drop_last() =~= files.deep_view().take(i as int));
            assert(files.deep_view().take(i + 1).last() == files@[i as int].deep_view());
            assert(r.deep_view() =~= all_lines(files.deep_view().take(i + 1)));
        }
        i = i + 1;
    }
    proof {
        assert(files.deep_view().take(files@.len() as int) =~= files.deep_view());
    }
    r
}

/// Drops every repeated line, keeping first occurrences in order.
fn dedup_lines(lines: &Vec<String>) -> (r: Vec<String>)
    ensures
        r.deep_view() == dedup_spec(lines.deep_view()),
{
    let mut r: Vec<String> = Vec::new();
    proof {
        assert(r.deep_view() =~= dedup_spec(lines.deep_view().take(0)));
    }
    let mut i: usize = 0;
    while i < lines.len()
        invariant
            0 <= i <= lines@.len(),
            r.deep_view() == dedup_spec(lines.deep_view().take(i as int)),
        decreases lines@.len() - i,
    {
        proof {
            assert(lines.deep_view().take(i + 1).drop_last() =~= lines.deep_view().take(i as int));
            assert(lines.deep_view().take(i + 1).last() == lines@[i as int]@);
        }
        if !contains_line(&r, &lines[i]) {
            let line = lines[i].clone();
            r.push(line);
            proof {
                assert(r.deep_view() =~= dedup_spec(lines.deep_view().take(i + 1)));
            }
        }
        i = i + 1;
    }
    proof {
        assert(lines.deep_view().take(lines@.len() as int) =~= lines.deep_view());
    }
    r
}

/// Merges the lines of every wordlist file into one deduplicated candidate
/// list: every line of every file appears exactly once, at the position of
/// its first occurrence.
pub fn merge_candidates(files: &Vec<Vec<String>>) -> (r: Vec<String>)
    ensures
        r.deep_view() == dedup_spec(all_lines(files.deep_view())),
{
    let all = concat_lines(files);
    dedup_lines(&all)
}

/// The candidate source: the merged, deduplicated list, or the fatal
/// "no candidates" condition exactly when the merged sources are empty.
pub fn load_candidates(files: &Vec<Vec<String>>) -> (r: Result<Vec<String>, FatalError>)
    ensures
        match r {
            Ok(candidates) => dedup_spec(all_lines(files.deep_view())).len() > 0
                && candidates.deep_view() == dedup_spec(all_lines(files.deep_view())),
            Err(e) => dedup_spec(all_lines(files.deep_view())).len() == 0 && e is NoCandidates,
        },
{
    let merged = merge_candidates(files);
    if merged.len() == 0 {
        Err(FatalError::NoCandidates)
    } else {
        Ok(merged)
    }
}

/// Deduplication keeps exactly the lines that were present: membership in the
/// merged list and in its sources coincide.
pub proof fn lemma_dedup_same_members(lines: Seq<Seq<char>>)
    ensures
        forall|x: Seq<char>| #[trigger]
            dedup_spec(lines).contains(x) <==> #[trigger] lines.contains(x),
    decreases lines.len(),
{
    if lines.len() > 0 {
        let prefix = lines.drop_last();
        lemma_dedup_same_members(prefix);
        let d = dedup_spec(lines);
        let rest = dedup_spec(prefix);
        assert forall|x: Seq<char>| #[trigger] dedup_spec(lines).contains(x) implies lines.contains(
            x,
        ) by {
            let j = choose|j: int| 0 <= j < d.len() && d[j] == x;
            if j < rest.len() {
                assert(rest[j] == x);
                assert(rest.contains(x));
                assert(prefix.contains(x));
                let i = choose|i: int| 0 <= i < prefix.len() && prefix[i] == x;
                assert(lines[i] == x);
            } else {
                assert(x == lines.last());
                assert(lines[lines.len() - 1] == x);
            }
        }
        assert forall|x: Seq<char>| #[trigger] lines.contains(x) implies dedup_spec(
            lines,
        ).contains(x) by {
            let i = choose|i: int| 0 <= i < lines.len() && lines[i] == x;
            if i < lines.len() - 1 {
                assert(prefix[i] == x);
                assert(prefix.contains(x));
                assert(rest.contains(x));
                let j = choose|j: int| 0 <= j < rest.len() && rest[j] == x;
                assert(d[j] == x);
            } else {
                if rest.contains(lines.last()) {
                    let j = choose|j: int| 0 <= j < rest.len() && rest[j] == x;
                    assert(d[j] == x);
                } else {
                    assert(d[d.len() - 1] == x);
                }
            }
        }
    }
}

/// The merged list holds no line twice.
pub proof fn lemma_dedup_distinct(lines: Seq<Seq<char>>)
    ensures
        distinct_seq(dedup_spec(lines)),
    decreases lines.len(),
{
    if lines.len() > 0 {
        let prefix = lines.drop_last();
        lemma_dedup_distinct(prefix);
        let d = dedup_spec(prefix);
        if !d.contains(lines.last()) {
            assert forall|i: int, j: int|
                0 <= i < j < dedup_spec(lines).len() implies dedup_spec(lines)[i] != dedup_spec(
                lines,
            )[j] by {
                if j == d.len() {
                    assert(d.contains(d[i]));
                }
            }
        }
    }
}

/// A list without duplicates is its own merge.
pub proof fn lemma_dedup_of_distinct_identity(lines: Seq<Seq<char>>)
    requires
        distinct_seq(lines),
    ensures
        dedup_spec(lines) == lines,
    decreases lines.len(),
{
    if lines.len() > 0 {
        let prefix = lines.drop_last();
        assert(distinct_seq(prefix));
        lemma_dedup_of_distinct_identity(prefix);
        if prefix.contains(lines.last()) {
            let i = choose|i: int| 0 <= i < prefix.len() && prefix[i] == lines.last();
            assert(lines[i] == lines[lines.len() - 1]);
            assert(false);
        }
        assert(dedup_spec(lines) =~= lines);
    }
}

/// Appending lines that are all already present changes nothing.
proof fn lemma_dedup_absorbs_contained(lines: Seq<Seq<char>>, extra: Seq<Seq<char>>)
    requires
        forall|k: int| 0 <= k < extra.len() ==> lines.contains(#[trigger] extra[k]),
    ensures
        dedup_spec(lines + extra) == dedup_spec(lines),
    decreases extra.len(),
{
    if extra.len() == 0 {
        assert(lines + extra =~= lines);
    } else {
        let front = extra.drop_last();
        assert(forall|k: int| 0 <= k < front.len() ==> lines.contains(#[trigger] front[k]));
        lemma_dedup_absorbs_contained(lines, front);
        assert((lines + extra).drop_last() =~= lines + front);
        assert((lines + extra).last() == extra.last());
        assert(lines.contains(extra[extra.len() - 1]));
        lemma_dedup_same_members(lines);
        assert(dedup_spec(lines).contains(extra.last()));
        assert(dedup_spec(lines + extra) == dedup_spec(lines + front));
    }
}

/// `all_lines` distributes over concatenation of file sets.
proof fn lemma_all_lines_add(a: Seq<Seq<Seq<char>>>, b: Seq<Seq<Seq<char>>>)
    ensures
        all_lines(a + b) == all_lines(a) + all_lines(b),
    decreases b.len(),
{
    if b.len() == 0 {
        assert(a + b =~= a);
        assert(all_lines(a) + all_lines(b) =~= all_lines(a));
    } else {
        let front = b.drop_last();
        lemma_all_lines_add(a, front);
        assert((a + b).drop_last() =~= a + front);
        assert((a + b).last() == b.last());
        assert(all_lines(a) + all_lines(b) =~= (all_lines(a) + all_lines(front)) + b.last());
    }
}

/// Merging is idempotent: feeding the same file set in twice, or re-merging
/// an already merged list, yields the same candidate list.
pub proof fn lemma_merge_idempotent(files: Seq<Seq<Seq<char>>>)
    ensures
        dedup_spec(all_lines(files + files)) == dedup_spec(all_lines(files)),
        dedup_spec(dedup_spec(all_lines(files))) == dedup_spec(all_lines(files)),
{
    let lines = all_lines(files);
    lemma_all_lines_add(files, files);
    assert(forall|k: int| 0 <= k < lines.len() ==> lines.contains(#[trigger] lines[k]));
    lemma_dedup_absorbs_contained(lines, lines);
    lemma_dedup_distinct(lines);
    lemma_dedup_of_distinct_identity(dedup_spec(lines));
}

} // verus!
