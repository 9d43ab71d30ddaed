//! Character-level text predicates: fragment containment and prefix tests,
//! with executable searches proved against them.

use vstd::prelude::*;
use vstd::string::*;

verus! {

/// The pattern `pat` occurs in `text` starting at character position `i`.
pub open spec fn matches_at(text: Seq<char>, pat: Seq<char>, i: int) -> bool {
    0 <= i && i + pat.len() <= text.len() && text.subrange(i, i + pat.len() as int) == pat
}

/// The pattern `pat` occurs somewhere in `text`.
pub open spec fn contains_fragment(text: Seq<char>, pat: Seq<char>) -> bool {
    exists|i: int| matches_at(text, pat, i)
}

/// `text` begins with the pattern `pat`.
pub open spec fn starts_with(text: Seq<char>, pat: Seq<char>) -> bool {
    pat.len() <= text.len() && text.subrange(0, pat.len() as int) == pat
}

/// Decides whether `pat` occurs anywhere in `text`, by a straightforward
/// character scan.
pub fn find_fragment(text: &str, pat: &str) -> (found: bool)
    ensures
        found == contains_fragment(text@, pat@),
{
    let n: usize = text.unicode_len();
    let m: usize = pat.unicode_len();
    if m > n {
        assert(forall|i: int| !matches_at(text@, pat@, i));
        return false;
    }
    if m == 0 {
        proof {
            assert(text@.subrange(0, 0) =~= pat@);
            assert(matches_at(text@, pat@, 0));
        }
        return true;
    }
    let mut i: usize = 0;
    while i <= n - m
        invariant
            1 <= m <= n == text@.len(),
            m == pat@.len(),
            i <= n - m + 1,
            forall|k: int| 0 <= k < i ==> !matches_at(text@, pat@, k),
        decreases n - m - i + 1,
    {
        let mut j: usize = 0;
        let mut mismatch = false;
        while j < m
            invariant
                m <= n == text@.len(),
                m == pat@.len(),
                i + m <= n,
                j <= m,
                !mismatch ==> forall|l: int| 0 <= l < j ==> text@[i + l] == pat@[l],
                mismatch ==> !matches_at(text@, pat@, i as int),
            decreases m - j,
        {
            if text.get_char(i + j) != pat.get_char(j) {
                proof {
                    assert(matches_at(text@, pat@, i as int) ==> text@.subrange(
                        i as int,
                        i + m,
                    )[j as int] == pat@[j as int]);
                }
                mismatch = true;
                j = m;
            } else {
                j = j + 1;
            }
        }
        if !mismatch {
            proof {
                assert(text@.subrange(i as int, i + m) =~= pat@);
                assert(matches_at(text@, pat@, i as int));
            }
            return true;
        }
        i = i + 1;
    }
    proof {
        assert(forall|k: int| matches_at(text@, pat@, k) ==> 0 <= k <= n - m);
    }
    false
}

/// `line` with one trailing carriage return removed, if it ends in one.
pub open spec fn strip_cr(line: Seq<char>) -> Seq<char> {
    if line.len() > 0 && line.last() == '\r' {
        line.drop_last()
    } else {
        line
    }
}

/// The position of the first newline at or after `pos`, or the length of
/// `text` when there is none.
pub open spec fn next_nl(text: Seq<char>, pos: int) -> int
    decreases text.len() - pos,
{
    if pos < 0 || pos >= text.len() {
        text.len() as int
    } else if text[pos] == '\n' {
        pos
    } else {
        next_nl(text, pos + 1)
    }
}

/// The lines of `text` from position `pos` on: segments split at newlines,
/// each segment before a newline with a trailing carriage return removed.
/// A trailing newline ends the last line without starting an empty one.
pub open spec fn lines_from(text: Seq<char>, pos: int) -> Seq<Seq<char>>
    decreases text.len() - pos,
    via lines_from_decreases
{
    if pos < 0 || pos >= text.len() {
        Seq::empty()
    } else {
        let i = next_nl(text, pos);
        if i >= text.len() {
            seq![text.subrange(pos, text.len() as int)]
        } else {
            seq![strip_cr(text.subrange(pos, i))] + lines_from(text, i + 1)
        }
    }
}

#[via_fn]
proof fn lines_from_decreases(text: Seq<char>, pos: int) {
    if 0 <= pos < text.len() {
        lemma_next_nl_bounds(text, pos);
    }
}

/// The lines of `text`, as the original text splits into them.
pub open spec fn spec_lines(text: Seq<char>) -> Seq<Seq<char>> {
    lines_from(text, 0)
}

proof fn lemma_next_nl_bounds(text: Seq<char>, pos: int)
    requires
        0 <= pos <= text.len(),
    ensures
        pos <= next_nl(text, pos) <= text.len(),
    decreases text.len() - pos,
{
    if pos < text.len() && text[pos] != '\n' {
        lemma_next_nl_bounds(text, pos + 1);
    }
}

/// `next_nl` is the unique position with no newline before it (at or after
/// `pos`) that holds a newline or ends the text.
proof fn lemma_next_nl_is(text: Seq<char>, pos: int, i: int)
    requires
        0 <= pos <= i <= text.len(),
        forall|j: int| pos <= j < i ==> text[j] != '\n',
        i == text.len() || text[i] == '\n',
    ensures
        next_nl(text, pos) == i,
    decreases i - pos,
{
    if pos < i {
        lemma_next_nl_is(text, pos + 1, i);
    }
}

/// Splits raw captured text into its lines, in original order.
pub fn split_lines(text: &str) -> (out: Vec<String>)
    ensures
        out@.map_values(|s: String| s@) == spec_lines(text@),
{
    let n: usize = text.unicode_len();
    let mut out: Vec<String> = Vec::new();
    let mut pos: usize = 0;
    proof {
        assert(out@.map_values(|s: String| s@) + lines_from(text@, 0) =~= spec_lines(text@));
    }
    while pos < n
        invariant
            n == text@.len(),
            pos <= n,
            out@.map_values(|s: String| s@) + lines_from(text@, pos as int) == spec_lines(text@),
        decreases n - pos,
    {
        let mut q: usize = pos;
        while q < n && text.get_char(q) != '\n'
            invariant
                pos <= q <= n == text@.len(),
                forall|j: int| pos <= j < q ==> text@[j] != '\n',
            decreases n - q,
        {
            q = q + 1;
        }
        proof {
            lemma_next_nl_is(text@, pos as int, q as int);
        }
        let ghost prev = out@.map_values(|s: String| s@);
        if q < n {
            let end: usize = if q > pos && text.get_char(q - 1) == '\r' {
                q - 1
            } else {
                q
            };
            proof {
                if q > pos && text@[q - 1] == '\r' {
                    assert(text@.subrange(pos as int, q as int).last() == '\r');
                    assert(text@.subrange(pos as int, q as int).drop_last() =~= text@.subrange(
                        pos as int,
                        q - 1,
                    ));
                } else if q > pos {
                    assert(text@.subrange(pos as int, q as int).last() == text@[q - 1]);
                }
                assert(strip_cr(text@.subrange(pos as int, q as int)) == text@.subrange(
                    pos as int,
                    end as int,
                ));
            }
            let line = String::from_str(text.substring_char(pos, end));
            out.push(line);
            pos = q + 1;
            proof {
                assert(out@.map_values(|s: String| s@) =~= prev.push(line@));
                assert(out@.map_values(|s: String| s@) + lines_from(text@, pos as int)
                    =~= spec_lines(text@));
            }
        } else {
            let line = String::from_str(text.substring_char(pos, n));
            out.push(line);
            pos = n;
            proof {
                assert(out@.map_values(|s: String| s@) =~= prev.push(line@));
                assert(lines_from(text@, n as int) =~= Seq::<Seq<char>>::empty());
                assert(out@.map_values(|s: String| s@) + lines_from(text@, pos as int)
                    =~= spec_lines(text@));
            }
        }
    }
    proof {
        assert(lines_from(text@, pos as int) =~= Seq::<Seq<char>>::empty());
        assert(out@.map_values(|s: String| s@) =~= spec_lines(text@));
    }
    out
}

/// Decides whether `text` begins with `pat`.
pub fn has_prefix(text: &str, pat: &str) -> (r: bool)
    ensures
        r == starts_with(text@, pat@),
{
    let n: usize = text.unicode_len();
    let m: usize = pat.unicode_len();
    if m > n {
        return false;
    }
    let mut j: usize = 0;
    while j < m
        invariant
            m <= n == text@.len(),
            m == pat@.len(),
            j <= m,
            forall|l: int| 0 <= l < j ==> text@[l] == pat@[l],
        decreases m - j,
    {
        if text.get_char(j) != pat.get_char(j) {
            proof {
                assert(starts_with(text@, pat@) ==> text@.subrange(0, m as int)[j as int]
                    == pat@[j as int]);
            }
            return false;
        }
        j = j + 1;
    }
    proof {
        assert(text@.subrange(0, m as int) =~= pat@);
    }
    true
}

} // verus!
