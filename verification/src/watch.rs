//! The change-notification filter: of all filesystem events under the
//! corpus root, only those touching a transcript (`.jsonl`) or index
//! (`.json`) file are worth forwarding to a consumer.

use vstd::prelude::*;
use vstd::string::StrSliceExecFns;
use vstd::string::StringExecFns;

verus! {

/// Index of the last occurrence of `c` in `t`, or `-1`.
pub open spec fn rfind_char(t: Seq<char>, c: char) -> int
    decreases t.len(),
{
    if t.len() == 0 {
        -1
    } else if t.last() == c {
        t.len() - 1
    } else {
        rfind_char(t.drop_last(), c)
    }
}

pub proof fn lemma_rfind_char(t: Seq<char>, c: char)
    ensures
        -1 <= rfind_char(t, c) < t.len(),
        rfind_char(t, c) >= 0 ==> t[rfind_char(t, c)] == c,
        forall|j: int| rfind_char(t, c) < j < t.len() ==> t[j] != c,
    decreases t.len(),
{
    if t.len() > 0 && t.last() != c {
        lemma_rfind_char(t.drop_last(), c);
        assert forall|j: int| rfind_char(t, c) < j < t.len() implies t[j] != c by {
            if j < t.len() - 1 {
                assert(t.drop_last()[j] == t[j]);
            }
        }
    }
}

/// The extension of a path: the part of its final component after the
/// last dot, provided that dot is not the component's first character.
pub open spec fn ext_of(p: Seq<char>) -> Option<Seq<char>> {
    let s = rfind_char(p, '/');
    let comp = p.skip(s + 1);
    let d = rfind_char(comp, '.');
    if d > 0 {
        Some(comp.skip(d + 1))
    } else {
        None
    }
}

/// Whether a path names a transcript or index file.
pub open spec fn has_watch_ext(p: Seq<char>) -> bool {
    match ext_of(p) {
        Some(e) => e == "jsonl"@ || e == "json"@,
        None => false,
    }
}

/// The extension of a path, as [`ext_of`] describes.
pub fn path_ext(p: &str) -> (r: Option<String>)
    ensures
        r.deep_view() == ext_of(p@),
{
    let n = p.unicode_len();
    let mut cut: usize = 0;
    let mut j: usize = 0;
    while j < n
        invariant
            0 <= cut <= j <= n,
            n == p@.len(),
            cut == 0 || p@[cut - 1] == '/',
            forall|k: int| cut <= k < j ==> p@[k] != '/',
        decreases n - j,
    {
        let c = p.get_char(j);
        if c == '/' {
            cut = j + 1;
        }
        j += 1;
    }
    let ghost comp = p@.skip(cut as int);
    proof {
        lemma_rfind_char(p@, '/');
        let s = rfind_char(p@, '/');
        if cut == 0 {
            if s >= 0 {
                assert(p@[s] != '/');
            }
        } else {
            if s > cut - 1 {
                assert(p@[s] != '/');
            }
            if s < cut - 1 {
                assert(p@[cut - 1] != '/');
            }
        }
        assert(s + 1 == cut);
    }
    let mut dot: usize = 0;
    let mut found = false;
    let mut k: usize = cut;
    while k < n
        invariant
            cut <= k <= n,
            n == p@.len(),
            comp == p@.skip(cut as int),
            found ==> cut <= dot < k && p@[dot as int] == '.',
            forall|m: int| (if found {
                dot < m < k
            } else {
                cut <= m < k
            }) ==> p@[m] != '.',
        decreases n - k,
    {
        let c = p.get_char(k);
        if c == '.' {
            dot = k;
            found = true;
        }
        k += 1;
    }
    proof {
        lemma_rfind_char(comp, '.');
        assert forall|m: int| 0 <= m < comp.len() implies comp[m] == p@[cut + m] by {}
        let d = rfind_char(comp, '.');
        if found {
            if d > dot - cut {
                assert(comp[d] != '.');
            }
            if d < dot - cut {
                assert(comp[(dot - cut) as int] != '.');
            }
            assert(d == dot - cut);
        } else {
            if d >= 0 {
                assert(comp[d] != '.');
            }
        }
    }
    if found && dot > cut {
        let e = String::from_str(p.substring_char(dot + 1, n));
        proof {
            assert(comp.skip((dot - cut + 1) as int) =~= p@.subrange(dot as int + 1, n as int));
        }
        Some(e)
    } else {
        None
    }
}

/// Whether a path names a transcript or index file.
pub fn is_watch_path(p: &str) -> (r: bool)
    ensures
        r == has_watch_ext(p@),
{
    match path_ext(p) {
        Some(e) => e == String::from_str("jsonl") || e == String::from_str("json"),
        None => false,
    }
}

/// Whether a change event, given by its affected paths, touches any
/// transcript or index file and is therefore worth forwarding.
pub fn event_is_relevant(paths: &Vec<String>) -> (r: bool)
    ensures
        r == (exists|i: int| 0 <= i < paths.deep_view().len() && has_watch_ext(
            paths.deep_view()[i],
        )),
{
    let mut i: usize = 0;
    while i < paths.len()
        invariant
            0 <= i <= paths@.len(),
            forall|k: int| 0 <= k < i ==> !has_watch_ext(paths.deep_view()[k]),
        decreases paths@.len() - i,
    {
        proof {
            assert(paths.deep_view()[i as int] == paths@[i as int]@);
        }
        if is_watch_path(paths[i].as_str()) {
            proof {
                assert(has_watch_ext(paths.deep_view()[i as int]));
            }
            return true;
        }
        i += 1;
    }
    false
}

} // verus!
