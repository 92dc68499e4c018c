//! The API-call scan over one fetched document: a line is kept when it holds
//! one of the client-side request markers (`fetch`, `axios`,
//! `XMLHttpRequest`). The fetch itself is the driver's; the matched lines are
//! carried to the output as opaque strings.

use vstd::prelude::*;

verus! {

/// `sub` occurs contiguously somewhere in `s`.
pub open spec fn contains_sub(s: Seq<char>, sub: Seq<char>) -> bool {
    exists|k: int| 0 <= k <= s.len() - sub.len() && #[trigger] s.subrange(k, k + sub.len()) == sub
}

/// Whether one line of a document reads as a client-side API request.
pub open spec fn is_api_line_spec(line: Seq<char>) -> bool {
    contains_sub(line, "fetch"@) || contains_sub(line, "axios"@) || contains_sub(
        line,
        "XMLHttpRequest"@,
    )
}

/// Whether `sub` matches `s` at position `pos`.
fn match_at(s: &str, sub: &str, pos: usize, n: usize, m: usize) -> (b: bool)
    requires
        n == s@.len(),
        m == sub@.len(),
        pos + m <= n,
    ensures
        b == (s@.subrange(pos as int, pos as int + m as int) == sub@),
{
    let mut j: usize = 0;
    while j < m
        invariant
            0 <= j <= m,
            n == s@.len(),
            m == sub@.len(),
            pos + m <= n,
            forall|k: int| 0 <= k < j ==> s@[pos + k] == sub@[k],
        decreases m - j,
    {
        if s.get_char(pos + j) != sub.get_char(j) {
            proof {
                assert(s@.subrange(pos as int, pos as int + m as int)[j as int] != sub@[j as int]);
            }
            return false;
        }
        j = j + 1;
    }
    proof {
        assert(s@.subrange(pos as int, pos as int + m as int) =~= sub@);
    }
    true
}

/// Naive substring search, character by character.
pub fn contains_substring(s: &str, sub: &str) -> (b: bool)
    ensures
        b == contains_sub(s@, sub@),
{
    let n = s.unicode_len();
    let m = sub.unicode_len();
    if m > n {
        proof {
            assert(!contains_sub(s@, sub@));
        }
        return false;
    }
    if m == 0 {
        proof {
            assert(s@.subrange(0, 0 + sub@.len() as int) =~= sub@);
        }
        return true;
    }
    let mut i: usize = 0;
    while i <= n - m
        invariant
            0 <= i <= n - m + 1,
            1 <= m <= n,
            n == s@.len(),
            m == sub@.len(),
            forall|k: int| 0 <= k < i ==> #[trigger] s@.subrange(k, k + sub@.len()) != sub@,
        decreases n - m - i + 1,
    {
        if match_at(s, sub, i, n, m) {
            proof {
                assert(s@.subrange(i as int, i as int + sub@.len()) == sub@);
            }
            return true;
        }
        i = i + 1;
    }
    false
}

/// Classifies one line of the fetched document.
pub fn is_api_line(line: &str) -> (b: bool)
    ensures
        b == is_api_line_spec(line@),
{
    contains_substring(line, "fetch") || contains_substring(line, "axios") || contains_substring(
        line,
        "XMLHttpRequest",
    )
}

/// The lines of the fetched document that read as API requests, in document
/// order: what the output's API section lists, and empty exactly when that
/// section is omitted.
pub fn api_request_lines(lines: &Vec<String>) -> (r: Vec<String>)
    ensures
        r.deep_view() == lines.deep_view().filter(|l: Seq<char>| is_api_line_spec(l)),
{
    let mut r: Vec<String> = Vec::new();
    proof {
        reveal(Seq::filter);
        assert(r.deep_view() =~= lines.deep_view().take(0).filter(
            |l: Seq<char>| is_api_line_spec(l),
        ));
    }
    let mut i: usize = 0;
    while i < lines.len()
        invariant
            0 <= i <= lines@.len(),
            r.deep_view() == lines.deep_view().take(i as int).filter(
                |l: Seq<char>| is_api_line_spec(l),
            ),
        decreases lines@.len() - i,
    {
        proof {
            reveal(Seq::filter);
            assert(lines.deep_view().take(i + 1).drop_last() =~= lines.deep_view().take(i as int));
            assert(lines.deep_view().take(i + 1).last() == lines@[i as int]@);
        }
        if is_api_line(lines[i].as_str()) {
            let line = lines[i].clone();
            r.push(line);
            proof {
                assert(r.deep_view() =~= r.deep_view().drop_last().push(lines@[i as int]@));
            }
        }
        i = i + 1;
    }
    proof {
        assert(lines.deep_view().take(lines@.len() as int) =~= lines.deep_view());
    }
    r
}

} // verus!
