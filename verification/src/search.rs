//! The budgeted full-text search over a corpus of transcripts: a cheap
//! case-insensitive pre-check over a file's raw text, then a structural
//! scan of its display blocks with bounded match context, capped at five
//! results per file; an aggregation step caps the combined list.
//!
//! One file's search is a pure function of the query and the file's text,
//! so a rescan of an unchanged corpus returns the same results however the
//! per-file work is scheduled; the order-independence of the aggregate's
//! multiset is proved below.

use vstd::prelude::*;
use vstd::string::StrSliceExecFns;
use vstd::string::StringExecFns;

use crate::record::{DisplayBlockV, DisplayContentBlock, DisplayMessageV};
use crate::text::{contains_sub, find_sub, str_contains, str_find};
use crate::transcript::{
    extract_first_prompt, first_prompt_of, messages_of, parse_all_messages,
};

verus! {

/// One search hit, with its bounded context window.
#[derive(Clone)]
pub struct SearchResult {
    pub encoded_name: String,
    pub project_name: String,
    pub session_id: String,
    pub first_prompt: Option<String>,
    pub matched_text: String,
    pub role: String,
    pub timestamp: Option<String>,
}

pub ghost struct SearchResultV {
    pub encoded_name: Seq<char>,
    pub project_name: Seq<char>,
    pub session_id: Seq<char>,
    pub first_prompt: Option<Seq<char>>,
    pub matched_text: Seq<char>,
    pub role: Seq<char>,
    pub timestamp: Option<Seq<char>>,
}

impl DeepView for SearchResult {
    type V = SearchResultV;

    open spec fn deep_view(&self) -> SearchResultV {
        SearchResultV {
            encoded_name: self.encoded_name@,
            project_name: self.project_name@,
            session_id: self.session_id@,
            first_prompt: self.first_prompt.deep_view(),
            matched_text: self.matched_text@,
            role: self.role@,
            timestamp: self.timestamp.deep_view(),
        }
    }
}

/// What lowercasing a text yields. Named only: the Unicode lowercase
/// mapping is a function of the characters alone, stated nowhere here.
pub uninterp spec fn lower_of(s: Seq<char>) -> Seq<char>;

/// Relies on `str::to_lowercase`: the Unicode lowercase form of the text,
/// a function of its characters alone; an empty text stays empty.
#[verifier::external_body]
fn lowercase(s: &str) -> (r: String)
    ensures
        r@ == lower_of(s@),
        s@.len() == 0 ==> r@.len() == 0,
{
    s.to_lowercase()
}

/// The searchable text of one display block: for tool use, the rendered
/// input; for a tool result, the rendered content.
pub open spec fn block_text(b: DisplayBlockV) -> Seq<char> {
    match b {
        DisplayBlockV::Text { text } => text,
        DisplayBlockV::Thinking { thinking } => thinking,
        DisplayBlockV::ToolUse { input, .. } => input,
        DisplayBlockV::ToolResult { content, .. } => content,
    }
}

/// The context window around a match of length `qlen` at position `p` of
/// the lowered text: up to 50 characters each side, clamped to the
/// original text's bounds.
pub open spec fn window_of(t: Seq<char>, p: int, qlen: int) -> Seq<char> {
    let start = if p > 50 {
        p - 50
    } else {
        0
    };
    let limit = p + qlen + 50;
    let end = if limit > t.len() {
        t.len() as int
    } else {
        limit
    };
    if start <= end {
        t.subrange(start, end)
    } else {
        Seq::empty()
    }
}

/// The match a block yields for an already-lowered query: the context
/// window around the first case-insensitive occurrence, if any.
pub open spec fn block_match(ql: Seq<char>, b: DisplayBlockV) -> Option<Seq<char>> {
    let t = block_text(b);
    let p = find_sub(lower_of(t), ql);
    if p >= 0 {
        Some(window_of(t, p, ql.len() as int))
    } else {
        None
    }
}

/// A hit: its context window, and the role and timestamp of the message
/// it came from.
pub ghost struct HitV {
    pub matched_text: Seq<char>,
    pub role: Seq<char>,
    pub timestamp: Option<Seq<char>>,
}

/// The hits of one message's blocks, in block order.
pub open spec fn hits_of_blocks(
    ql: Seq<char>,
    blocks: Seq<DisplayBlockV>,
    role: Seq<char>,
    ts: Option<Seq<char>>,
) -> Seq<HitV>
    decreases blocks,
{
    if blocks.len() == 0 {
        Seq::empty()
    } else {
        match block_match(ql, blocks[0]) {
            Some(w) => seq![HitV { matched_text: w, role, timestamp: ts }] + hits_of_blocks(
                ql,
                blocks.drop_first(),
                role,
                ts,
            ),
            None => hits_of_blocks(ql, blocks.drop_first(), role, ts),
        }
    }
}

/// The hits of a whole message list, in message order then block order.
pub open spec fn hits_of_msgs(ql: Seq<char>, msgs: Seq<DisplayMessageV>) -> Seq<HitV>
    decreases msgs,
{
    if msgs.len() == 0 {
        Seq::empty()
    } else {
        hits_of_blocks(ql, msgs[0].content, msgs[0].role, msgs[0].timestamp) + hits_of_msgs(
            ql,
            msgs.drop_first(),
        )
    }
}

/// The hits one file yields for a query: nothing unless the lowered raw
/// text contains the lowered query (the pre-check); otherwise the first
/// five structural hits.
pub open spec fn file_hits(q: Seq<char>, text: Seq<char>) -> Seq<HitV> {
    let ql = lower_of(q);
    if contains_sub(lower_of(text), ql) {
        let hs = hits_of_msgs(ql, messages_of(text));
        if hs.len() > 5 {
            hs.take(5)
        } else {
            hs
        }
    } else {
        Seq::empty()
    }
}

/// Hits dressed up as results, with the per-file facts attached.
pub open spec fn results_of(
    hits: Seq<HitV>,
    encoded_name: Seq<char>,
    project_name: Seq<char>,
    session_id: Seq<char>,
    first_prompt: Option<Seq<char>>,
) -> Seq<SearchResultV> {
    Seq::new(
        hits.len(),
        |i: int|
            SearchResultV {
                encoded_name,
                project_name,
                session_id,
                first_prompt,
                matched_text: hits[i].matched_text,
                role: hits[i].role,
                timestamp: hits[i].timestamp,
            },
    )
}

/// What searching one file yields.
pub open spec fn search_file_spec(
    q: Seq<char>,
    encoded_name: Seq<char>,
    project_name: Seq<char>,
    session_id: Seq<char>,
    text: Seq<char>,
) -> Seq<SearchResultV> {
    results_of(
        file_hits(q, text),
        encoded_name,
        project_name,
        session_id,
        first_prompt_of(text),
    )
}

/// The searchable text of one display block.
fn block_text_exec(b: &DisplayContentBlock) -> (r: &String)
    ensures
        r@ == block_text(b.deep_view()),
{
    match b {
        DisplayContentBlock::Text { text } => text,
        DisplayContentBlock::Thinking { thinking } => thinking,
        DisplayContentBlock::ToolUse { input, .. } => input,
        DisplayContentBlock::ToolResult { content, .. } => content,
    }
}

/// Searches one session file's text for a query: a case-insensitive
/// pre-check over the raw text, then the display blocks in order, a
/// bounded context window per hit, at most five hits for the file.
pub fn search_file(
    query: &str,
    encoded_name: &str,
    project_name: &str,
    session_id: &str,
    content: &str,
) -> (r: Vec<SearchResult>)
    ensures
        r.deep_view() == search_file_spec(query@, encoded_name@, project_name@, session_id@, content@),
        r@.len() <= 5,
{
    let ql = lowercase(query);
    let lc = lowercase(content);
    let ghost qlv = lower_of(query@);
    if !str_contains(lc.as_str(), ql.as_str()) {
        let empty: Vec<SearchResult> = Vec::new();
        proof {
            assert(empty.deep_view() =~= Seq::<SearchResultV>::empty());
            assert(search_file_spec(query@, encoded_name@, project_name@, session_id@, content@)
                =~= Seq::<SearchResultV>::empty());
        }
        return empty;
    }
    let msgs = parse_all_messages(content);
    let first_prompt = extract_first_prompt(content);
    let ghost whole = messages_of(content@);
    let ghost hs = hits_of_msgs(qlv, whole);
    let ghost fp = first_prompt_of(content@);
    proof {
        assert(whole.skip(0) =~= whole);
        assert(Seq::<HitV>::empty() + hits_of_msgs(qlv, whole) =~= hs);
    }
    let mut out: Vec<SearchResult> = Vec::new();
    let ghost mut done: Seq<HitV> = Seq::empty();
    let mut i: usize = 0;
    while i < msgs.len()
        invariant
            i <= msgs@.len(),
            msgs.deep_view() == whole,
            whole == messages_of(content@),
            whole.len() == msgs@.len(),
            ql@ == qlv,
            qlv == lower_of(query@),
            contains_sub(lower_of(content@), qlv),
            fp == first_prompt_of(content@),
            first_prompt.deep_view() == fp,
            hs == hits_of_msgs(qlv, whole),
            hs == done + hits_of_msgs(qlv, whole.skip(i as int)),
            out@.len() == done.len() <= 4,
            out.deep_view() == results_of(done, encoded_name@, project_name@, session_id@, fp),
        decreases msgs@.len() - i,
    {
        proof {
            assert(whole.skip(i as int)[0] == whole[i as int]);
            assert(whole.skip(i as int).drop_first() =~= whole.skip(i as int + 1));
            assert(whole[i as int] == msgs@[i as int].deep_view());
        }
        let m = &msgs[i];
        let ghost blocks = whole[i as int].content;
        let ghost role = whole[i as int].role;
        let ghost ts = whole[i as int].timestamp;
        let ghost msg_hits = hits_of_blocks(qlv, blocks, role, ts);
        proof {
            assert(blocks.skip(0) =~= blocks);
            assert(hits_of_blocks(qlv, blocks.skip(0), role, ts) == msg_hits);
            assert(hs == done + (msg_hits + hits_of_msgs(qlv, whole.skip(i as int + 1))));
        }
        let ghost tail_hits = hits_of_msgs(qlv, whole.skip(i as int + 1));
        let ghost mut seen: Seq<HitV> = Seq::empty();
        proof {
            assert(msg_hits == seen + hits_of_blocks(qlv, blocks.skip(0), role, ts));
        }
        let mut j: usize = 0;
        while j < m.content.len()
            invariant
                j <= m.content@.len(),
                m.content.deep_view() == blocks,
                blocks.len() == m.content@.len(),
                ql@ == qlv,
                qlv == lower_of(query@),
                contains_sub(lower_of(content@), qlv),
                whole == messages_of(content@),
                fp == first_prompt_of(content@),
                first_prompt.deep_view() == fp,
                hs == hits_of_msgs(qlv, whole),
                msg_hits == hits_of_blocks(qlv, blocks, role, ts),
                tail_hits == hits_of_msgs(qlv, whole.skip(i as int + 1)),
                hs == done + (msg_hits + tail_hits),
                msg_hits == seen + hits_of_blocks(qlv, blocks.skip(j as int), role, ts),
                role == m.role@,
                ts == m.timestamp.deep_view(),
                out@.len() == (done + seen).len() <= 4,
                out.deep_view() == results_of(
                    done + seen,
                    encoded_name@,
                    project_name@,
                    session_id@,
                    fp,
                ),
            decreases m.content@.len() - j,
        {
            proof {
                assert(blocks.skip(j as int)[0] == blocks[j as int]);
                assert(blocks.skip(j as int).drop_first() =~= blocks.skip(j as int + 1));
                assert(blocks[j as int] == m.content@[j as int].deep_view());
            }
            let b = &m.content[j];
            let t = block_text_exec(b);
            let lt = lowercase(t.as_str());
            let qlen = ql.as_str().unicode_len();
            let tn = t.as_str().unicode_len();
            match str_find(lt.as_str(), ql.as_str()) {
                Some(p) => {
                    let start: usize = if p > 50 {
                        p - 50
                    } else {
                        0
                    };
                    let limit = p.saturating_add(qlen).saturating_add(50);
                    let end: usize = if limit > tn {
                        tn
                    } else {
                        limit
                    };
                    let matched_text = if start <= end {
                        String::from_str(t.as_str().substring_char(start, end))
                    } else {
                        String::new()
                    };
                    let ghost w = window_of(t@, p as int, qlv.len() as int);
                    proof {
                        assert(matched_text@ =~= w);
                    }
                    let hit = SearchResult {
                        encoded_name: String::from_str(encoded_name),
                        project_name: String::from_str(project_name),
                        session_id: String::from_str(session_id),
                        first_prompt: first_prompt.clone(),
                        matched_text,
                        role: m.role.clone(),
                        timestamp: m.timestamp.clone(),
                    };
                    let ghost hv = HitV { matched_text: w, role, timestamp: ts };
                    let ghost old_out = out.deep_view();
                    let ghost old_seen = seen;
                    out.push(hit);
                    proof {
                        assert(hit.deep_view() == (SearchResultV {
                            encoded_name: encoded_name@,
                            project_name: project_name@,
                            session_id: session_id@,
                            first_prompt: fp,
                            matched_text: w,
                            role,
                            timestamp: ts,
                        }));
                        assert(block_match(qlv, blocks[j as int]) == Some(w));
                        assert(hits_of_blocks(qlv, blocks.skip(j as int), role, ts) == seq![hv]
                            + hits_of_blocks(qlv, blocks.skip(j as int + 1), role, ts));
                        seen = seen.push(hv);
                        assert(seen.drop_last() + (seq![hv] + hits_of_blocks(
                            qlv,
                            blocks.skip(j as int + 1),
                            role,
                            ts,
                        )) =~= seen + hits_of_blocks(qlv, blocks.skip(j as int + 1), role, ts));
                        assert(out.deep_view() =~= old_out.push(hit.deep_view()));
                        assert(done + seen =~= (done + old_seen).push(hv));
                        assert forall|k: int| 0 <= k < (done + seen).len() implies out.deep_view()[k]
                            == results_of(
                            (done + seen),
                            encoded_name@,
                            project_name@,
                            session_id@,
                            fp,
                        )[k] by {
                            if k < (done + old_seen).len() {
                                assert(out.deep_view()[k] == old_out[k]);
                                assert((done + seen)[k] == (done + old_seen)[k]);
                            }
                        }
                        assert(out.deep_view() =~= results_of(
                            (done + seen),
                            encoded_name@,
                            project_name@,
                            session_id@,
                            fp,
                        ));
                    }
                    if out.len() >= 5 {
                        proof {
                            let taken = done + seen;
                            assert(taken.len() == 5);
                            assert(hs == taken + (hits_of_blocks(
                                qlv,
                                blocks.skip(j as int + 1),
                                role,
                                ts,
                            ) + tail_hits));
                            assert(hs.len() >= 5);
                            assert(hs.take(5) =~= taken);
                            assert(file_hits(query@, content@) == taken);
                        }
                        return out;
                    }
                },
                None => {
                    proof {
                        assert(block_match(qlv, blocks[j as int]) is None);
                        assert(hits_of_blocks(qlv, blocks.skip(j as int), role, ts)
                            == hits_of_blocks(qlv, blocks.skip(j as int + 1), role, ts));
                    }
                },
            }
            j += 1;
        }
        proof {
            assert(blocks.skip(blocks.len() as int) =~= Seq::<DisplayBlockV>::empty());
            assert(hits_of_blocks(qlv, blocks.skip(blocks.len() as int), role, ts) =~= Seq::<
                HitV,
            >::empty());
            assert(seen + Seq::<HitV>::empty() =~= seen);
            assert(msg_hits == seen);
            done = done + seen;
            assert(hs == done + tail_hits);
        }
        i += 1;
    }
    proof {
        assert(whole.skip(whole.len() as int) =~= Seq::<DisplayMessageV>::empty());
        assert(hits_of_msgs(qlv, whole.skip(whole.len() as int)) =~= Seq::<HitV>::empty());
        assert(done + Seq::<HitV>::empty() =~= done);
        assert(hs == done);
        assert(hs.len() <= 4);
        assert(file_hits(query@, content@) == hs);
    }
    out
}

} // verus!

verus! {

// ---------------------------------------------------------------------------
// Aggregation across files.
// ---------------------------------------------------------------------------
/// What the combined result list is: the per-file lists in the order the
/// files were handed in, flattened, truncated to `max_results`.
pub open spec fn aggregate_spec(per_file: Seq<Seq<SearchResultV>>, max_results: nat) -> Seq<
    SearchResultV,
> {
    let flat = per_file.flatten();
    if flat.len() > max_results {
        flat.take(max_results as int)
    } else {
        flat
    }
}

/// Flattens per-file result lists and truncates the combined list.
pub fn aggregate_results(per_file: Vec<Vec<SearchResult>>, max_results: usize) -> (r: Vec<
    SearchResult,
>)
    ensures
        r.deep_view() == aggregate_spec(per_file.deep_view(), max_results as nat),
        r@.len() <= max_results,
{
    let ghost files = per_file.deep_view();
    let ghost flat = files.flatten();
    proof {
        assert(files.skip(0) =~= files);
        assert(Seq::<SearchResultV>::empty() + flat =~= flat);
    }
    if max_results == 0 {
        let empty: Vec<SearchResult> = Vec::new();
        proof {
            assert(empty.deep_view() =~= Seq::<SearchResultV>::empty());
            if flat.len() > 0 {
                assert(flat.take(0) =~= Seq::<SearchResultV>::empty());
            }
        }
        return empty;
    }
    let mut out: Vec<SearchResult> = Vec::new();
    let ghost mut done: Seq<SearchResultV> = Seq::empty();
    let mut rest = per_file;
    let ghost mut i: int = 0;
    while rest.len() > 0
        invariant
            0 <= i <= files.len(),
            files == per_file.deep_view(),
            rest.deep_view() =~= files.skip(i),
            flat == files.flatten(),
            flat == done + files.skip(i).flatten(),
            out@.len() == done.len() < max_results,
            out.deep_view() == done,
        decreases rest@.len(),
    {
        proof {
            assert(files.skip(i)[0] == files[i]);
            assert(files.skip(i).drop_first() =~= files.skip(i + 1));
            assert(rest.deep_view()[0] == rest@[0].deep_view());
            assert(files.skip(i).flatten() == files[i] + files.skip(i + 1).flatten());
        }
        let mut one = rest.remove(0);
        let ghost this = files[i];
        let ghost mut k: int = 0;
        proof {
            assert(one.deep_view() =~= this.skip(0));
        }
        while one.len() > 0
            invariant
                0 <= k <= this.len(),
                files == per_file.deep_view(),
                one.deep_view() =~= this.skip(k),
                flat == files.flatten(),
                flat == done + (this.skip(k) + files.skip(i + 1).flatten()),
                out@.len() == done.len() < max_results,
                out.deep_view() == done,
            decreases one@.len(),
        {
            proof {
                assert(this.skip(k)[0] == this[k]);
                assert(this.skip(k).drop_first() =~= this.skip(k + 1));
                assert(one.deep_view()[0] == one@[0].deep_view());
            }
            let x = one.remove(0);
            let ghost old_done = done;
            out.push(x);
            proof {
                done = done.push(x.deep_view());
                assert(out.deep_view() =~= done);
                assert(this.skip(k) =~= seq![this[k]] + this.skip(k + 1));
                assert(old_done + ((seq![this[k]] + this.skip(k + 1)) + files.skip(
                    i + 1,
                ).flatten()) =~= done + (this.skip(k + 1) + files.skip(i + 1).flatten()));
                k = k + 1;
                assert(one.deep_view() =~= this.skip(k));
            }
            if out.len() >= max_results {
                proof {
                    assert(done.len() == max_results);
                    assert(flat == done + (this.skip(k) + files.skip(i + 1).flatten()));
                    if flat.len() > max_results {
                        assert(flat.take(max_results as int) =~= done);
                    } else {
                        assert(flat =~= done);
                    }
                }
                return out;
            }
        }
        proof {
            assert(this.skip(this.len() as int) =~= Seq::<SearchResultV>::empty());
            assert(one.deep_view().len() == 0);
            assert(Seq::<SearchResultV>::empty() + files.skip(i + 1).flatten() =~= files.skip(
                i + 1,
            ).flatten());
            assert(flat == done + files.skip(i + 1).flatten());
            i = i + 1;
            assert(rest.deep_view() =~= files.skip(i));
        }
    }
    proof {
        assert(files.skip(files.len() as int) =~= Seq::<Seq<SearchResultV>>::empty());
        assert(files.skip(files.len() as int).flatten() =~= Seq::<SearchResultV>::empty());
        assert(done + Seq::<SearchResultV>::empty() =~= done);
        assert(flat == done);
        if done.len() == max_results {
        } else {
            assert(flat.len() <= max_results);
        }
    }
    out
}

// ---------------------------------------------------------------------------
// Order-independence of the aggregate.
// ---------------------------------------------------------------------------
/// Whatever order the per-file lists arrive in — one run's parallel
/// completion order or another's — the multiset of results in the
/// untruncated aggregate is the same: flattening depends on the order only
/// through the sequence, never through the multiset. Together with
/// [`search_file`]'s exact contract (one file's results are a function of
/// the query and the file's text alone), a rescan of an unchanged corpus
/// yields the same multiset of results however the files are scheduled.
pub proof fn lemma_aggregate_order_independent(
    a: Seq<Seq<SearchResultV>>,
    b: Seq<Seq<SearchResultV>>,
)
    requires
        a.to_multiset() == b.to_multiset(),
    ensures
        a.flatten().to_multiset() == b.flatten().to_multiset(),
    decreases a.len(),
{
    broadcast use vstd::seq_lib::group_to_multiset_ensures;

    if a.len() == 0 {
        assert(a.to_multiset().len() == 0);
        assert(b.len() == 0);
        assert(a.flatten() =~= b.flatten());
    } else {
        let x = a[0];
        assert(a.to_multiset().contains(x));
        assert(b.to_multiset().contains(x));
        assert(b.contains(x));
        let j = choose|j: int| 0 <= j < b.len() && b[j] == x;
        let b2 = b.remove(j);
        assert(b2.to_multiset() =~= b.to_multiset().remove(x));
        assert(a.drop_first() =~= a.remove(0));
        assert(a.remove(0).to_multiset() =~= a.to_multiset().remove(x));
        lemma_aggregate_order_independent(a.drop_first(), b2);
        // Flatten of `a` splits off its head.
        assert(a.flatten() == x + a.drop_first().flatten());
        vstd::seq_lib::lemma_multiset_commutative(x, a.drop_first().flatten());
        // Flatten of `b` splits around position `j`.
        assert(b =~= b.take(j) + (seq![x] + b.skip(j + 1)));
        vstd::seq_lib::lemma_flatten_concat(b.take(j), seq![x] + b.skip(j + 1));
        vstd::seq_lib::lemma_flatten_concat(seq![x], b.skip(j + 1));
        seq![x].lemma_flatten_one_element();
        assert(b.flatten() =~= b.take(j).flatten() + (x + b.skip(j + 1).flatten()));
        vstd::seq_lib::lemma_multiset_commutative(
            b.take(j).flatten(),
            x + b.skip(j + 1).flatten(),
        );
        vstd::seq_lib::lemma_multiset_commutative(x, b.skip(j + 1).flatten());
        assert(b2 =~= b.take(j) + b.skip(j + 1));
        vstd::seq_lib::lemma_flatten_concat(b.take(j), b.skip(j + 1));
        assert(b2.flatten() =~= b.take(j).flatten() + b.skip(j + 1).flatten());
        vstd::seq_lib::lemma_multiset_commutative(b.take(j).flatten(), b.skip(j + 1).flatten());
        assert(a.flatten().to_multiset() =~= b.flatten().to_multiset());
    }
}

} // verus!
