//! The reversible (but lossy) encoding between a real filesystem path and
//! the single-segment directory name a corpus stores it under, plus the
//! well-known locations derived from the user's home directory.
//!
//! The encoding replaces every path separator (and, for tokens that came
//! from a drive-lettered platform, the drive colon) with a hyphen. A path
//! that itself contained a hyphen therefore decodes incorrectly by
//! construction; that ambiguity belongs to the encoding and is not patched
//! here.

use vstd::prelude::*;
use vstd::string::StrSliceExecFns;
use vstd::string::StringExecFns;

verus! {

/// Every hyphen becomes a path separator.
pub open spec fn map_hyphens(t: Seq<char>) -> Seq<char> {
    Seq::new(t.len(), |i: int| if t[i] == '-' {
        '/'
    } else {
        t[i]
    })
}

/// What decoding a project token yields: a token whose second character is
/// a hyphen came from a drive-lettered path, so its first character is the
/// drive letter and the two-character prefix stands for `<drive>:`; any
/// other token has every hyphen read as a separator outright, a leading
/// hyphen standing for the root.
pub open spec fn decode_spec(t: Seq<char>) -> Seq<char> {
    if t.len() >= 2 && t[1] == '-' {
        seq![t[0], ':'] + map_hyphens(t.skip(2))
    } else {
        map_hyphens(t)
    }
}

/// Replaces every hyphen of `s` from position `from` on with a separator.
fn replace_hyphens_from(s: &str, from: usize, n: usize) -> (r: String)
    requires
        n == s@.len(),
        from <= n,
    ensures
        r@ == map_hyphens(s@.skip(from as int)),
{
    proof {
        reveal_strlit("/");
    }
    let mut out = String::new();
    let mut i: usize = from;
    while i < n
        invariant
            from <= i <= n,
            n == s@.len(),
            "/"@ == seq!['/'],
            out@.len() == i - from,
            forall|k: int|
                0 <= k < i - from ==> out@[k] == (if s@[from + k] == '-' {
                    '/'
                } else {
                    s@[from + k]
                }),
        decreases n - i,
    {
        let c = s.get_char(i);
        if c == '-' {
            out.append("/");
        } else {
            let piece = s.substring_char(i, i + 1);
            proof {
                assert(piece@ =~= seq![s@[i as int]]);
            }
            out.append(piece);
        }
        i += 1;
    }
    proof {
        assert(out@ =~= map_hyphens(s@.skip(from as int)));
    }
    out
}

/// Decodes an encoded project directory name back to a display path, as
/// [`decode_spec`] describes.
pub fn decode_project_path(encoded: &str) -> (r: String)
    ensures
        r@ == decode_spec(encoded@),
{
    let n = encoded.unicode_len();
    if n >= 2 && encoded.get_char(1) == '-' {
        proof {
            reveal_strlit(":");
        }
        let mut out = String::from_str(encoded.substring_char(0, 1));
        out.append(":");
        let rest = replace_hyphens_from(encoded, 2, n);
        out.append(rest.as_str());
        proof {
            assert(out@ =~= decode_spec(encoded@));
        }
        out
    } else {
        replace_hyphens_from(encoded, 0, n)
    }
}

/// Whether a character is a path separator.
pub open spec fn is_sep(c: char) -> bool {
    c == '/' || c == '\\'
}

/// `t` with its trailing separators stripped.
pub open spec fn trim_seps(t: Seq<char>) -> Seq<char>
    decreases t.len(),
{
    if t.len() > 0 && is_sep(t.last()) {
        trim_seps(t.drop_last())
    } else {
        t
    }
}

/// Index of the last separator in `t`, or `-1`.
pub open spec fn rfind_sep(t: Seq<char>) -> int
    decreases t.len(),
{
    if t.len() == 0 {
        -1
    } else if is_sep(t.last()) {
        t.len() - 1
    } else {
        rfind_sep(t.drop_last())
    }
}

pub proof fn lemma_rfind_sep(t: Seq<char>)
    ensures
        -1 <= rfind_sep(t) < t.len(),
        rfind_sep(t) >= 0 ==> is_sep(t[rfind_sep(t)]),
        forall|j: int| rfind_sep(t) < j < t.len() ==> !is_sep(t[j]),
    decreases t.len(),
{
    if t.len() > 0 && !is_sep(t.last()) {
        lemma_rfind_sep(t.drop_last());
        assert forall|j: int| rfind_sep(t) < j < t.len() implies !is_sep(t[j]) by {
            if j < t.len() - 1 {
                assert(t.drop_last()[j] == t[j]);
            }
        }
    }
}

/// What the short name of a path is: the segment after the last separator,
/// once trailing separators are stripped; the whole (stripped) path when no
/// separator remains.
pub open spec fn short_name_spec(t: Seq<char>) -> Seq<char> {
    let u = trim_seps(t);
    let i = rfind_sep(u);
    if i < 0 {
        u
    } else {
        u.skip(i + 1)
    }
}

/// Extracts the last path segment as a short display name, as
/// [`short_name_spec`] describes.
pub fn short_name_from_path(path: &str) -> (r: String)
    ensures
        r@ == short_name_spec(path@),
{
    let n = path.unicode_len();
    let mut end: usize = n;
    let mut done = false;
    proof {
        assert(path@.take(n as int) =~= path@);
    }
    while !done && end > 0
        invariant
            0 <= end <= n,
            n == path@.len(),
            trim_seps(path@.take(end as int)) == trim_seps(path@),
            done ==> end > 0 && !is_sep(path@[end - 1]),
        decreases end + (if done {
            0int
        } else {
            1int
        }),
    {
        let c = path.get_char(end - 1);
        if c == '/' || c == '\\' {
            proof {
                let u = path@.take(end as int);
                assert(u.last() == path@[end - 1]);
                assert(u.drop_last() =~= path@.take(end as int - 1));
            }
            end -= 1;
        } else {
            done = true;
        }
    }
    let ghost u = trim_seps(path@);
    proof {
        if end == 0 {
            assert(path@.take(0) =~= Seq::<char>::empty());
        }
        assert(trim_seps(path@.take(end as int)) == path@.take(end as int));
        assert(u == path@.take(end as int));
    }
    let mut cut: usize = 0;
    let mut j: usize = 0;
    while j < end
        invariant
            0 <= cut <= j <= end <= n,
            n == path@.len(),
            u == trim_seps(path@),
            u == path@.take(end as int),
            u.len() == end,
            cut == 0 || (is_sep(u[cut - 1])),
            forall|k: int| cut <= k < j ==> !is_sep(u[k]),
        decreases end - j,
    {
        let c = path.get_char(j);
        if c == '/' || c == '\\' {
            cut = j + 1;
        }
        j += 1;
    }
    proof {
        lemma_rfind_sep(u);
        let ri = rfind_sep(u);
        if cut == 0 {
            if ri >= 0 {
                assert(!is_sep(u[ri]));
            }
        } else {
            if ri > cut - 1 {
                assert(!is_sep(u[ri]));
            }
            if ri < cut - 1 {
                assert(!is_sep(u[cut - 1]));
            }
        }
    }
    let r = String::from_str(path.substring_char(cut, end));
    proof {
        if cut == 0 {
            assert(path@.subrange(0, end as int) =~= u);
        } else {
            assert(path@.subrange(cut as int, end as int) =~= u.skip(cut as int));
        }
    }
    r
}

/// Normalizes a path to this platform's separators: backslashes become
/// forward slashes.
pub open spec fn normalize_spec(t: Seq<char>) -> Seq<char> {
    Seq::new(t.len(), |i: int| if t[i] == '\\' {
        '/'
    } else {
        t[i]
    })
}

/// Replaces every backslash with a forward slash.
pub fn normalize_path(path: &str) -> (r: String)
    ensures
        r@ == normalize_spec(path@),
{
    proof {
        reveal_strlit("/");
    }
    let n = path.unicode_len();
    let mut out = String::new();
    let mut i: usize = 0;
    while i < n
        invariant
            0 <= i <= n,
            n == path@.len(),
            "/"@ == seq!['/'],
            out@.len() == i,
            forall|k: int|
                0 <= k < i ==> out@[k] == (if path@[k] == '\\' {
                    '/'
                } else {
                    path@[k]
                }),
        decreases n - i,
    {
        let c = path.get_char(i);
        if c == '\\' {
            out.append("/");
        } else {
            let piece = path.substring_char(i, i + 1);
            proof {
                assert(piece@ =~= seq![path@[i as int]]);
            }
            out.append(piece);
        }
        i += 1;
    }
    proof {
        assert(out@ =~= normalize_spec(path@));
    }
    out
}

// ---------------------------------------------------------------------------
// Round-trip law.
// ---------------------------------------------------------------------------
/// What this system's own prior encoding produced from a path on a
/// separator-is-slash platform: every separator became a hyphen.
pub open spec fn encode_spec(path: Seq<char>) -> Seq<char> {
    Seq::new(path.len(), |i: int| if path[i] == '/' {
        '-'
    } else {
        path[i]
    })
}

/// Decoding a token produced by this system's own prior encoding yields
/// the original path exactly, provided that path contained no literal
/// hyphen — and that its second character is not itself a separator, since
/// such a token decodes through the drive-letter rule instead.
pub proof fn lemma_decode_encode_roundtrip(path: Seq<char>)
    requires
        forall|i: int| 0 <= i < path.len() ==> path[i] != '-',
        !(path.len() >= 2 && path[1] == '/'),
    ensures
        decode_spec(encode_spec(path)) == path,
{
    let t = encode_spec(path);
    if t.len() >= 2 {
        assert(t[1] != '-');
    }
    assert(decode_spec(t) =~= path);
}

// ---------------------------------------------------------------------------
// Well-known corpus locations.
// ---------------------------------------------------------------------------
/// The corpus home under a home directory.
pub open spec fn corpus_home_of(home: Seq<char>) -> Seq<char> {
    home + "/.transcripts"@
}

/// The projects directory under a home directory.
pub open spec fn projects_dir_of(home: Seq<char>) -> Seq<char> {
    corpus_home_of(home) + "/projects"@
}

/// The statistics cache file under a home directory.
pub open spec fn stats_cache_of(home: Seq<char>) -> Seq<char> {
    corpus_home_of(home) + "/stats-cache.json"@
}

/// Relies on `dirs::home_dir`: the user's home directory, if the system
/// reports one whose path is valid text. The result depends on the
/// environment, so nothing is assumed of it.
#[verifier::external_body]
fn home_dir_string() -> (r: Option<String>) {
    dirs::home_dir().and_then(|p| p.to_str().map(|s| s.to_string()))
}

/// The projects directory under the given home directory.
pub fn projects_dir_under(home: &str) -> (r: String)
    ensures
        r@ == projects_dir_of(home@),
{
    let mut out = String::from_str(home);
    out.append("/.transcripts");
    out.append("/projects");
    out
}

/// The statistics cache path under the given home directory.
pub fn stats_cache_under(home: &str) -> (r: String)
    ensures
        r@ == stats_cache_of(home@),
{
    let mut out = String::from_str(home);
    out.append("/.transcripts");
    out.append("/stats-cache.json");
    out
}

/// The projects directory of the current user, when a home directory can
/// be located at all.
pub fn get_projects_dir() -> (r: Option<String>)
    ensures
        r matches Some(p) ==> exists|h: Seq<char>| p@ == projects_dir_of(h),
{
    match home_dir_string() {
        Some(home) => {
            let p = projects_dir_under(home.as_str());
            proof {
                assert(p@ == projects_dir_of(home@));
            }
            Some(p)
        },
        None => None,
    }
}

/// The statistics cache path of the current user, when a home directory
/// can be located at all.
pub fn get_stats_cache_path() -> (r: Option<String>)
    ensures
        r matches Some(p) ==> exists|h: Seq<char>| p@ == stats_cache_of(h),
{
    match home_dir_string() {
        Some(home) => {
            let p = stats_cache_under(home.as_str());
            proof {
                assert(p@ == stats_cache_of(home@));
            }
            Some(p)
        },
        None => None,
    }
}

} // verus!

