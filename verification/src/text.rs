//! Character-level text utilities: splitting a file into lines and finding
//! a pattern inside a text, each verified against a sequence-level
//! specification.

use vstd::prelude::*;
use vstd::string::StrSliceExecFns;
use vstd::string::StringExecFns;

verus! {

/// Index of the first occurrence of `c` in `t`, or `-1`.
pub open spec fn find_char(t: Seq<char>, c: char) -> int
    decreases t.len(),
{
    if t.len() == 0 {
        -1
    } else if t[0] == c {
        0
    } else {
        let r = find_char(t.drop_first(), c);
        if r < 0 {
            -1
        } else {
            r + 1
        }
    }
}

pub proof fn lemma_find_char(t: Seq<char>, c: char)
    ensures
        -1 <= find_char(t, c) < t.len(),
        find_char(t, c) >= 0 ==> t[find_char(t, c)] == c,
        forall|j: int| 0 <= j < find_char(t, c) ==> t[j] != c,
        find_char(t, c) < 0 ==> forall|j: int| 0 <= j < t.len() ==> t[j] != c,
    decreases t.len(),
{
    if t.len() > 0 && t[0] != c {
        lemma_find_char(t.drop_first(), c);
        let r = find_char(t, c);
        assert forall|j: int| 0 <= j < r implies t[j] != c by {
            if j > 0 {
                assert(t.drop_first()[j - 1] != c);
            }
        }
        if r < 0 {
            assert forall|j: int| 0 <= j < t.len() implies t[j] != c by {
                if j > 0 {
                    assert(t.drop_first()[j - 1] != c);
                }
            }
        }
    }
}

/// First occurrence of `c` at or after a position known to be preceded by
/// no occurrence.
pub proof fn lemma_find_char_at(t: Seq<char>, c: char, k: int)
    requires
        0 <= k < t.len(),
        t[k] == c,
        forall|j: int| 0 <= j < k ==> t[j] != c,
    ensures
        find_char(t, c) == k,
{
    lemma_find_char(t, c);
    let r = find_char(t, c);
    if r < 0 {
        assert(t[k] != c);
    } else if r < k {
        assert(t[r] != c);
    } else if r > k {
        assert(t[k] != c);
    }
}

pub proof fn lemma_find_char_none(t: Seq<char>, c: char)
    requires
        forall|j: int| 0 <= j < t.len() ==> t[j] != c,
    ensures
        find_char(t, c) < 0,
{
    lemma_find_char(t, c);
    let r = find_char(t, c);
    if r >= 0 {
        assert(t[r] != c);
    }
}

/// The segments of `t` between newline characters; a trailing newline
/// yields a final empty segment, and a text with no newline is one segment.
pub open spec fn lines_of(t: Seq<char>) -> Seq<Seq<char>>
    decreases t.len(),
    via lines_of_decreases
{
    let i = find_char(t, '\n');
    if i < 0 {
        seq![t]
    } else {
        seq![t.take(i)] + lines_of(t.skip(i + 1))
    }
}

#[via_fn]
proof fn lines_of_decreases(t: Seq<char>) {
    lemma_find_char(t, '\n');
}

/// Splits a text into its lines, as [`lines_of`] describes.
pub fn split_lines(s: &str) -> (r: Vec<String>)
    ensures
        r.deep_view() == lines_of(s@),
{
    let n = s.unicode_len();
    let mut out: Vec<String> = Vec::new();
    proof {
        assert(s@.skip(0) =~= s@);
        assert(out.deep_view() =~= Seq::<Seq<char>>::empty());
        assert(Seq::<Seq<char>>::empty() + lines_of(s@) =~= lines_of(s@));
    }
    let mut start: usize = 0;
    let mut i: usize = 0;
    while i < n
        invariant
            0 <= start <= i <= n,
            n == s@.len(),
            forall|j: int| start <= j < i ==> s@[j] != '\n',
            lines_of(s@) == out.deep_view() + lines_of(s@.skip(start as int)),
        decreases n - i,
    {
        let c = s.get_char(i);
        if c == '\n' {
            let piece = String::from_str(s.substring_char(start, i));
            let ghost old_out = out.deep_view();
            out.push(piece);
            proof {
                let tail = s@.skip(start as int);
                assert forall|j: int| 0 <= j < i - start implies tail[j] != '\n' by {
                    assert(tail[j] == s@[start + j]);
                }
                assert(tail[i - start] == s@[i as int]);
                lemma_find_char_at(tail, '\n', i - start);
                assert(tail.take(i - start) =~= s@.subrange(start as int, i as int));
                assert(tail.skip(i - start + 1) =~= s@.skip(i as int + 1));
                assert(lines_of(tail) == seq![s@.subrange(start as int, i as int)] + lines_of(
                    s@.skip(i as int + 1),
                ));
                assert(out.deep_view() =~= old_out.push(s@.subrange(start as int, i as int)));
                assert(old_out + (seq![s@.subrange(start as int, i as int)] + lines_of(
                    s@.skip(i as int + 1),
                )) =~= out.deep_view() + lines_of(s@.skip(i as int + 1)));
            }
            start = i + 1;
        }
        i += 1;
    }
    let last = String::from_str(s.substring_char(start, n));
    let ghost old_out = out.deep_view();
    out.push(last);
    proof {
        let tail = s@.skip(start as int);
        assert forall|j: int| 0 <= j < tail.len() implies tail[j] != '\n' by {
            assert(tail[j] == s@[start + j]);
        }
        lemma_find_char_none(tail, '\n');
        assert(lines_of(tail) == seq![tail]);
        assert(tail =~= s@.subrange(start as int, n as int));
        assert(out.deep_view() =~= old_out.push(tail));
        assert(old_out + seq![tail] =~= out.deep_view());
    }
    out
}

/// Whether `pat` occurs in `t` starting at position `i`.
pub open spec fn sub_at(t: Seq<char>, pat: Seq<char>, i: int) -> bool {
    0 <= i && i + pat.len() <= t.len() && t.subrange(i, i + pat.len()) == pat
}

/// Index of the first occurrence of `pat` in `t`, or `-1`.
pub open spec fn find_sub(t: Seq<char>, pat: Seq<char>) -> int
    decreases t.len(),
{
    if sub_at(t, pat, 0) {
        0
    } else if t.len() == 0 {
        -1
    } else {
        let r = find_sub(t.drop_first(), pat);
        if r < 0 {
            -1
        } else {
            r + 1
        }
    }
}

/// Whether `pat` occurs anywhere in `t`.
pub open spec fn contains_sub(t: Seq<char>, pat: Seq<char>) -> bool {
    find_sub(t, pat) >= 0
}

pub proof fn lemma_find_sub(t: Seq<char>, pat: Seq<char>)
    ensures
        find_sub(t, pat) >= -1,
        find_sub(t, pat) >= 0 ==> sub_at(t, pat, find_sub(t, pat)),
        forall|j: int| 0 <= j < find_sub(t, pat) ==> !sub_at(t, pat, j),
        find_sub(t, pat) < 0 ==> forall|j: int| !sub_at(t, pat, j),
    decreases t.len(),
{
    if !sub_at(t, pat, 0) && t.len() > 0 {
        lemma_find_sub(t.drop_first(), pat);
        assert forall|j: int| sub_at(t.drop_first(), pat, j) == sub_at(t, pat, j + 1) by {
            if 0 <= j && j + pat.len() <= t.len() - 1 {
                assert(t.drop_first().subrange(j, j + pat.len() as int) =~= t.subrange(
                    j + 1,
                    j + 1 + pat.len() as int,
                ));
            }
        }
        let r = find_sub(t.drop_first(), pat);
        if r >= 0 {
            assert(sub_at(t, pat, r + 1));
            assert forall|j: int| 0 <= j < r + 1 implies !sub_at(t, pat, j) by {
                if j > 0 {
                    assert(!sub_at(t.drop_first(), pat, j - 1));
                }
            }
        } else {
            assert forall|j: int| !sub_at(t, pat, j) by {
                if j > 0 {
                    assert(!sub_at(t.drop_first(), pat, j - 1));
                }
            }
        }
    }
}

/// Whether `pat` occurs in `t` at position `i`, checked character by
/// character.
fn match_at(t: &str, pat: &str, i: usize, n: usize, m: usize) -> (r: bool)
    requires
        n == t@.len(),
        m == pat@.len(),
        i + m <= n,
    ensures
        r == sub_at(t@, pat@, i as int),
{
    let mut j: usize = 0;
    while j < m
        invariant
            0 <= j <= m,
            n == t@.len(),
            m == pat@.len(),
            i + m <= n,
            forall|k: int| 0 <= k < j ==> t@[i + k] == pat@[k],
        decreases m - j,
    {
        if t.get_char(i + j) != pat.get_char(j) {
            proof {
                assert(t@.subrange(i as int, i + m) != pat@) by {
                    assert(t@.subrange(i as int, i + m)[j as int] == t@[i + j]);
                }
            }
            return false;
        }
        j += 1;
    }
    proof {
        assert(t@.subrange(i as int, i + m) =~= pat@);
    }
    true
}

/// Index of the first occurrence of `pat` in `t`, if any.
pub fn str_find(t: &str, pat: &str) -> (r: Option<usize>)
    ensures
        match r {
            Some(i) => find_sub(t@, pat@) == i as int,
            None => find_sub(t@, pat@) < 0,
        },
{
    let n = t.unicode_len();
    let m = pat.unicode_len();
    proof {
        lemma_find_sub(t@, pat@);
    }
    if m == 0 {
        proof {
            assert(t@.subrange(0, 0) =~= pat@);
            assert(sub_at(t@, pat@, 0));
        }
        return Some(0);
    }
    if m > n {
        return None;
    }
    let mut i: usize = 0;
    while i <= n - m
        invariant
            0 <= i <= n - m + 1,
            m <= n,
            n == t@.len(),
            m == pat@.len(),
            1 <= m,
            forall|j: int| 0 <= j < i ==> !sub_at(t@, pat@, j),
        decreases n - i,
    {
        if match_at(t, pat, i, n, m) {
            proof {
                lemma_find_sub(t@, pat@);
                let r = find_sub(t@, pat@);
                if r < 0 {
                    assert(!sub_at(t@, pat@, i as int));
                } else if r < i {
                    assert(!sub_at(t@, pat@, r));
                } else if r > i {
                    assert(!sub_at(t@, pat@, i as int));
                }
            }
            return Some(i);
        }
        i += 1;
    }
    proof {
        lemma_find_sub(t@, pat@);
        assert forall|j: int| !sub_at(t@, pat@, j) by {
            if 0 <= j && j + pat@.len() <= t@.len() {
                assert(!sub_at(t@, pat@, j));
            }
        }
        let r = find_sub(t@, pat@);
        if r >= 0 {
            assert(!sub_at(t@, pat@, r));
        }
    }
    None
}

/// Whether `pat` occurs anywhere in `t`.
pub fn str_contains(t: &str, pat: &str) -> (r: bool)
    ensures
        r == contains_sub(t@, pat@),
{
    match str_find(t, pat) {
        Some(_) => true,
        None => false,
    }
}

} // verus!
