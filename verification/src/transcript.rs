//! Per-session operations over one transcript's text: reconstructing the
//! ordered display-message list, paginating it, extracting the first user
//! prompt and lightweight metadata, and cheaply counting messages.
//!
//! File order is append order is chronological order: every operation here
//! preserves the order in which records stand in the file.

use vstd::prelude::*;
use vstd::string::StrSliceExecFns;
use vstd::string::StringExecFns;

use crate::record::{
    display_of_line, display_line, parse_line, record_of_line, DisplayBlockV, DisplayContentBlock,
    DisplayMessage, DisplayMessageV, RawRecordV,
};
use crate::text::{lines_of, split_lines, contains_sub, str_contains};

verus! {

/// One page of a session's display messages.
pub struct PaginatedMessages {
    pub messages: Vec<DisplayMessage>,
    /// Count of all display messages in the session, whatever the page.
    pub total: usize,
    pub page: usize,
    pub page_size: usize,
    pub has_more: bool,
}

pub ghost struct PaginatedV {
    pub messages: Seq<DisplayMessageV>,
    pub total: int,
    pub page: int,
    pub page_size: int,
    pub has_more: bool,
}

impl DeepView for PaginatedMessages {
    type V = PaginatedV;

    open spec fn deep_view(&self) -> PaginatedV {
        PaginatedV {
            messages: self.messages.deep_view(),
            total: self.total as int,
            page: self.page as int,
            page_size: self.page_size as int,
            has_more: self.has_more,
        }
    }
}

/// The display messages contributed by a sequence of raw lines, in order;
/// lines that do not form a displayable record contribute nothing.
pub open spec fn messages_of_lines(ls: Seq<Seq<char>>) -> Seq<DisplayMessageV>
    decreases ls,
{
    if ls.len() == 0 {
        Seq::empty()
    } else {
        match display_of_line(ls[0]) {
            Some(m) => seq![m] + messages_of_lines(ls.drop_first()),
            None => messages_of_lines(ls.drop_first()),
        }
    }
}

/// The full display transcript of a session file's text.
pub open spec fn messages_of(text: Seq<char>) -> Seq<DisplayMessageV> {
    messages_of_lines(lines_of(text))
}

/// Parses a whole session text to its display messages, in file order.
pub fn parse_all_messages(content: &str) -> (r: Vec<DisplayMessage>)
    ensures
        r.deep_view() == messages_of(content@),
{
    let lines = split_lines(content);
    let ghost ls = lines_of(content@);
    let mut out: Vec<DisplayMessage> = Vec::new();
    proof {
        assert(ls.skip(0) =~= ls);
        assert(out.deep_view() =~= Seq::<DisplayMessageV>::empty());
        assert(Seq::<DisplayMessageV>::empty() + messages_of_lines(ls) =~= messages_of_lines(ls));
    }
    let mut i: usize = 0;
    while i < lines.len()
        invariant
            i <= lines@.len(),
            lines.deep_view() == ls,
            ls.len() == lines@.len(),
            messages_of_lines(ls) == out.deep_view() + messages_of_lines(ls.skip(i as int)),
        decreases lines@.len() - i,
    {
        proof {
            assert(ls[i as int] == lines@[i as int]@);
            assert(ls.skip(i as int)[0] == ls[i as int]);
            assert(ls.skip(i as int).drop_first() =~= ls.skip(i as int + 1));
        }
        match display_line(lines[i].as_str()) {
            Some(m) => {
                let ghost old_out = out.deep_view();
                let ghost mv = m.deep_view();
                out.push(m);
                proof {
                    assert(out.deep_view() =~= old_out.push(mv));
                    assert(messages_of_lines(ls.skip(i as int)) == seq![mv] + messages_of_lines(
                        ls.skip(i as int + 1),
                    ));
                    assert(old_out + (seq![mv] + messages_of_lines(ls.skip(i as int + 1))) =~= (
                    old_out.push(mv) + messages_of_lines(ls.skip(i as int + 1))));
                }
            },
            None => {
                proof {
                    assert(messages_of_lines(ls.skip(i as int)) == messages_of_lines(
                        ls.skip(i as int + 1),
                    ));
                }
            },
        }
        i += 1;
    }
    proof {
        assert(ls.skip(ls.len() as int) =~= Seq::<Seq<char>>::empty());
        assert(out.deep_view() + Seq::<DisplayMessageV>::empty() =~= out.deep_view());
    }
    out
}

/// The slice of `msgs` that page `page` of size `size` shows: the window
/// `[page*size, page*size + size)` clamped to the list's bounds.
pub open spec fn page_slice(msgs: Seq<DisplayMessageV>, page: nat, size: nat) -> Seq<
    DisplayMessageV,
> {
    let start = page * size;
    if start >= msgs.len() {
        Seq::empty()
    } else if start + size <= msgs.len() {
        msgs.subrange(start as int, (start + size) as int)
    } else {
        msgs.subrange(start as int, msgs.len() as int)
    }
}

/// Whether a further page holds any message.
pub open spec fn spec_has_more(page: nat, size: nat, total: nat) -> bool {
    (page + 1) * size < total
}

/// What paginating a session text yields.
pub open spec fn paginate_spec(text: Seq<char>, page: int, size: int) -> PaginatedV {
    PaginatedV {
        messages: page_slice(messages_of(text), page as nat, size as nat),
        total: messages_of(text).len() as int,
        page,
        page_size: size,
        has_more: spec_has_more(page as nat, size as nat, messages_of(text).len()),
    }
}

/// The total a pagination reports is invariant under the choice of page
/// and page size: always the count of display messages parsed from every
/// line of the session text.
pub proof fn lemma_total_page_invariant(text: Seq<char>, p1: int, s1: int, p2: int, s2: int)
    ensures
        paginate_spec(text, p1, s1).total == paginate_spec(text, p2, s2).total,
        paginate_spec(text, p1, s1).total == messages_of(text).len(),
{
}

/// Paginates a session text: the requested slice, the total count of
/// display messages (independent of the page asked for), and whether more
/// pages follow. A page beyond the end is empty, never an error.
pub fn paginate_messages(content: &str, page: usize, page_size: usize) -> (r: PaginatedMessages)
    ensures
        r.deep_view() == paginate_spec(content@, page as int, page_size as int),
        r.messages.deep_view() == page_slice(
            messages_of(content@),
            page as nat,
            page_size as nat,
        ),
        r.total == messages_of(content@).len(),
{
    let mut msgs = parse_all_messages(content);
    let ghost whole = messages_of(content@);
    let total = msgs.len();
    let messages: Vec<DisplayMessage> = match page.checked_mul(page_size) {
        Some(start) => {
            if start < total {
                let tail_len = total - start;
                let mut tail = msgs.split_off(start);
                proof {
                    assert forall|k: int| 0 <= k < tail_len implies tail.deep_view()[k]
                        == whole[start + k] by {
                        assert(tail.deep_view()[k] == tail@[k].deep_view());
                    }
                }
                if page_size < tail.len() {
                    tail.truncate(page_size);
                    proof {
                        assert(tail.deep_view() =~= whole.subrange(
                            start as int,
                            (start + page_size) as int,
                        ));
                    }
                } else {
                    proof {
                        assert(tail.deep_view() =~= whole.subrange(
                            start as int,
                            whole.len() as int,
                        ));
                    }
                }
                tail
            } else {
                let empty: Vec<DisplayMessage> = Vec::new();
                proof {
                    assert(empty.deep_view() =~= Seq::<DisplayMessageV>::empty());
                }
                empty
            }
        },
        None => {
            let empty: Vec<DisplayMessage> = Vec::new();
            proof {
                assert(empty.deep_view() =~= Seq::<DisplayMessageV>::empty());
                assert((page as nat) * (page_size as nat) > usize::MAX >= whole.len());
            }
            empty
        },
    };
    let has_more: bool = if page_size == 0 {
        proof {
            assert((page as nat + 1) * 0 == 0);
        }
        0 < total
    } else {
        match page.checked_add(1) {
            None => {
                proof {
                    assert((page as nat + 1) * (page_size as nat) >= (page as nat + 1)) by (
                    nonlinear_arith)
                        requires
                            page_size as nat >= 1,
                    ;
                }
                false
            },
            Some(p1) => {
                match p1.checked_mul(page_size) {
                    None => {
                        proof {
                            assert((p1 as nat) * (page_size as nat) > usize::MAX >= whole.len());
                        }
                        false
                    },
                    Some(x) => x < total,
                }
            },
        }
    };
    PaginatedMessages { messages, total, page, page_size, has_more }
}

// ---------------------------------------------------------------------------
// Pagination laws.
// ---------------------------------------------------------------------------
/// The concatenation of pages `0, 1, …, k-1` of size `size`.
pub open spec fn pages_concat(msgs: Seq<DisplayMessageV>, size: nat, k: nat) -> Seq<
    DisplayMessageV,
>
    decreases k,
{
    if k == 0 {
        Seq::empty()
    } else {
        pages_concat(msgs, size, (k - 1) as nat) + page_slice(msgs, (k - 1) as nat, size)
    }
}

/// Concatenating the first `k` pages yields exactly the first
/// `min(k*size, len)` messages, in their original order.
pub proof fn lemma_pages_prefix(msgs: Seq<DisplayMessageV>, size: nat, k: nat)
    ensures
        pages_concat(msgs, size, k) == if k * size <= msgs.len() {
            msgs.take((k * size) as int)
        } else {
            msgs
        },
    decreases k,
{
    if k > 0 {
        let k1 = (k - 1) as nat;
        lemma_pages_prefix(msgs, size, k1);
        assert(k * size == k1 * size + size) by (nonlinear_arith)
            requires
                k1 == k - 1,
                k >= 1,
        ;
        if k1 * size >= msgs.len() {
            assert(pages_concat(msgs, size, k) =~= msgs);
        } else if k * size <= msgs.len() {
            assert(pages_concat(msgs, size, k) =~= msgs.take((k * size) as int));
        } else {
            assert(pages_concat(msgs, size, k) =~= msgs);
        }
    } else {
        if k * size <= msgs.len() {
            assert(pages_concat(msgs, size, 0) =~= msgs.take(0));
        }
    }
}

/// Walking the pages of one size in order, until `has_more` turns false,
/// reconstructs the whole message list: no duplicate, no gap, original
/// order. `k` is any page count past the last page with content, which is
/// exactly where `spec_has_more` first turns false.
pub proof fn lemma_pages_reconstruct(msgs: Seq<DisplayMessageV>, size: nat, k: nat)
    requires
        k * size >= msgs.len(),
    ensures
        pages_concat(msgs, size, k) == msgs,
        k >= 1 ==> !spec_has_more((k - 1) as nat, size, msgs.len()),
{
    lemma_pages_prefix(msgs, size, k);
    if k * size == msgs.len() {
        assert(msgs.take(msgs.len() as int) =~= msgs);
    }
    if k >= 1 {
        assert(((k - 1) as nat + 1) * size == k * size);
    }
}

// ---------------------------------------------------------------------------
// First prompt.
// ---------------------------------------------------------------------------
/// The text of the first plain-text block among `blocks`, if any.
pub open spec fn first_text_block(blocks: Seq<DisplayBlockV>) -> Option<Seq<char>>
    decreases blocks,
{
    if blocks.len() == 0 {
        None
    } else {
        match blocks[0] {
            DisplayBlockV::Text { text } => Some(text),
            _ => first_text_block(blocks.drop_first()),
        }
    }
}

/// The first user-authored text in a message list: the first text block of
/// the first user-role message that has one.
pub open spec fn first_user_text(msgs: Seq<DisplayMessageV>) -> Option<Seq<char>>
    decreases msgs,
{
    if msgs.len() == 0 {
        None
    } else if msgs[0].role == "user"@ && first_text_block(msgs[0].content) is Some {
        first_text_block(msgs[0].content)
    } else {
        first_user_text(msgs.drop_first())
    }
}

/// A prompt longer than 100 characters is cut there, with an ellipsis
/// marker appended.
pub open spec fn truncated_prompt(s: Seq<char>) -> Seq<char> {
    if s.len() > 100 {
        s.take(100) + "..."@
    } else {
        s
    }
}

/// What [`extract_first_prompt`] yields on a session text.
pub open spec fn first_prompt_of(text: Seq<char>) -> Option<Seq<char>> {
    match first_user_text(messages_of(text)) {
        Some(s) => Some(truncated_prompt(s)),
        None => None,
    }
}

/// Applies the 100-character truncation rule to a prompt.
pub fn truncate_prompt(text: &String) -> (r: String)
    ensures
        r@ == truncated_prompt(text@),
{
    if text.as_str().unicode_len() > 100 {
        let mut t = String::from_str(text.as_str().substring_char(0, 100));
        t.append("...");
        t
    } else {
        text.clone()
    }
}

/// The first user-authored text of a session, truncated to 100 characters.
pub fn extract_first_prompt(content: &str) -> (r: Option<String>)
    ensures
        r.deep_view() == first_prompt_of(content@),
{
    let msgs = parse_all_messages(content);
    let ghost whole = messages_of(content@);
    proof {
        assert(whole.skip(0) =~= whole);
    }
    let user_key = String::from_str("user");
    let mut i: usize = 0;
    while i < msgs.len()
        invariant
            i <= msgs@.len(),
            msgs.deep_view() == whole,
            whole == messages_of(content@),
            whole.len() == msgs@.len(),
            user_key@ == "user"@,
            first_user_text(whole) == first_user_text(whole.skip(i as int)),
        decreases msgs@.len() - i,
    {
        proof {
            assert(whole.skip(i as int)[0] == whole[i as int]);
            assert(whole.skip(i as int).drop_first() =~= whole.skip(i as int + 1));
            assert(whole[i as int] == msgs@[i as int].deep_view());
        }
        let m = &msgs[i];
        if m.role == user_key {
            let ghost blocks = whole[i as int].content;
            proof {
                assert(blocks.skip(0) =~= blocks);
            }
            let mut j: usize = 0;
            while j < m.content.len()
                invariant
                    j <= m.content@.len(),
                    m.content.deep_view() == blocks,
                    blocks.len() == m.content@.len(),
                    i < whole.len(),
                    whole.skip(i as int)[0] == whole[i as int],
                    whole[i as int].content == blocks,
                    whole[i as int].role == "user"@,
                    first_user_text(whole) == first_user_text(whole.skip(i as int)),
                    first_prompt_of(content@) == (match first_user_text(whole) {
                        Some(s) => Some(truncated_prompt(s)),
                        None => None::<Seq<char>>,
                    }),
                    first_text_block(blocks) == first_text_block(blocks.skip(j as int)),
                decreases m.content@.len() - j,
            {
                proof {
                    assert(blocks.skip(j as int)[0] == blocks[j as int]);
                    assert(blocks.skip(j as int).drop_first() =~= blocks.skip(j as int + 1));
                    assert(blocks[j as int] == m.content@[j as int].deep_view());
                }
                match &m.content[j] {
                    DisplayContentBlock::Text { text } => {
                        return Some(truncate_prompt(text));
                    },
                    _ => {},
                }
                j += 1;
            }
            proof {
                assert(blocks.skip(blocks.len() as int) =~= Seq::<DisplayBlockV>::empty());
            }
        }
        i += 1;
    }
    proof {
        assert(whole.skip(whole.len() as int) =~= Seq::<DisplayMessageV>::empty());
    }
    None
}

} // verus!

verus! {

// ---------------------------------------------------------------------------
// Session metadata.
// ---------------------------------------------------------------------------
/// The records contributed by a sequence of raw lines, in order; malformed
/// lines contribute nothing.
pub open spec fn records_of_lines(ls: Seq<Seq<char>>) -> Seq<RawRecordV>
    decreases ls,
{
    if ls.len() == 0 {
        Seq::empty()
    } else {
        match record_of_line(ls[0]) {
            Some(r) => seq![r] + records_of_lines(ls.drop_first()),
            None => records_of_lines(ls.drop_first()),
        }
    }
}

/// Whether a record carries any of the environment fields that session
/// metadata is read from.
pub open spec fn has_meta(r: RawRecordV) -> bool {
    r.cwd is Some || r.version is Some || r.git_branch is Some
}

/// The first record carrying metadata, if any.
pub open spec fn first_meta(rs: Seq<RawRecordV>) -> Option<RawRecordV>
    decreases rs,
{
    if rs.len() == 0 {
        None
    } else if has_meta(rs[0]) {
        Some(rs[0])
    } else {
        first_meta(rs.drop_first())
    }
}

/// What [`extract_session_metadata`] yields: the version (empty when the
/// stamping record carries none), git branch and working directory of the
/// first record that carries any of them.
pub open spec fn metadata_of(text: Seq<char>) -> Option<
    (Seq<char>, Option<Seq<char>>, Option<Seq<char>>),
> {
    match first_meta(records_of_lines(lines_of(text))) {
        None => None,
        Some(r) => Some(
            (
                match r.version {
                    Some(v) => v,
                    None => Seq::empty(),
                },
                r.git_branch,
                r.cwd,
            ),
        ),
    }
}

/// Scans a session text for the first record stamped with environment
/// metadata and returns its (version, git branch, project path).
pub fn extract_session_metadata(content: &str) -> (r: Option<
    (String, Option<String>, Option<String>),
>)
    ensures
        match r {
            None => metadata_of(content@) is None,
            Some(t) => metadata_of(content@) == Some((t.0@, t.1.deep_view(), t.2.deep_view())),
        },
{
    let lines = split_lines(content);
    let ghost ls = lines_of(content@);
    let ghost rs = records_of_lines(ls);
    proof {
        assert(ls.skip(0) =~= ls);
    }
    let mut i: usize = 0;
    while i < lines.len()
        invariant
            i <= lines@.len(),
            lines.deep_view() == ls,
            ls == lines_of(content@),
            ls.len() == lines@.len(),
            rs == records_of_lines(ls),
            first_meta(rs) == first_meta(records_of_lines(ls.skip(i as int))),
        decreases lines@.len() - i,
    {
        proof {
            assert(ls[i as int] == lines@[i as int]@);
            assert(ls.skip(i as int)[0] == ls[i as int]);
            assert(ls.skip(i as int).drop_first() =~= ls.skip(i as int + 1));
        }
        let ghost tail_records = records_of_lines(ls.skip(i as int + 1));
        match parse_line(lines[i].as_str()) {
            Some(rec) => {
                let ghost rv = rec.deep_view();
                proof {
                    assert(records_of_lines(ls.skip(i as int)) == seq![rv] + tail_records);
                    assert((seq![rv] + tail_records)[0] == rv);
                    assert((seq![rv] + tail_records).drop_first() =~= tail_records);
                }
                if rec.cwd.is_some() || rec.version.is_some() || rec.git_branch.is_some() {
                    proof {
                        assert(has_meta(rv));
                        assert(first_meta(records_of_lines(ls.skip(i as int))) == Some(rv));
                    }
                    let version = match rec.version {
                        Some(v) => v,
                        None => String::new(),
                    };
                    return Some((version, rec.git_branch, rec.cwd));
                }
                proof {
                    assert(!has_meta(rv));
                    assert(first_meta(records_of_lines(ls.skip(i as int))) == first_meta(
                        tail_records,
                    ));
                }
            },
            None => {
                proof {
                    assert(records_of_lines(ls.skip(i as int)) == tail_records);
                }
            },
        }
        i += 1;
    }
    proof {
        assert(ls.skip(ls.len() as int) =~= Seq::<Seq<char>>::empty());
    }
    None
}

// ---------------------------------------------------------------------------
// Cheap message count.
// ---------------------------------------------------------------------------
/// Whether a raw line carries a user or assistant type marker. This is the
/// cheap textual test [`count_messages`] uses in place of a full parse.
pub open spec fn is_marked_line(l: Seq<char>) -> bool {
    contains_sub(l, "\"type\":\"user\""@) || contains_sub(l, "\"type\":\"assistant\""@)
}

/// How many lines carry a type marker.
pub open spec fn count_marked(ls: Seq<Seq<char>>) -> nat
    decreases ls,
{
    if ls.len() == 0 {
        0
    } else {
        (if is_marked_line(ls[0]) {
            1nat
        } else {
            0nat
        }) + count_marked(ls.drop_first())
    }
}

/// Approximate message count: lines carrying a user or assistant type
/// marker, counted by substring check rather than a structural parse — a
/// deliberate precision/speed trade-off. Saturates at `u32::MAX`.
pub fn count_messages(content: &str) -> (r: u32)
    ensures
        r as nat == if count_marked(lines_of(content@)) > u32::MAX as nat {
            u32::MAX as nat
        } else {
            count_marked(lines_of(content@))
        },
{
    let lines = split_lines(content);
    let ghost ls = lines_of(content@);
    proof {
        assert(ls.skip(0) =~= ls);
    }
    let mut count: u32 = 0;
    let ghost mut seen: nat = 0nat;
    let mut i: usize = 0;
    while i < lines.len()
        invariant
            i <= lines@.len(),
            lines.deep_view() == ls,
            ls.len() == lines@.len(),
            count_marked(ls) == seen + count_marked(ls.skip(i as int)),
            count as nat == if seen > u32::MAX as nat {
                u32::MAX as nat
            } else {
                seen
            },
        decreases lines@.len() - i,
    {
        proof {
            assert(ls[i as int] == lines@[i as int]@);
            assert(ls.skip(i as int)[0] == ls[i as int]);
            assert(ls.skip(i as int).drop_first() =~= ls.skip(i as int + 1));
        }
        let line = &lines[i];
        let marked = str_contains(line.as_str(), "\"type\":\"user\"") || str_contains(
            line.as_str(),
            "\"type\":\"assistant\"",
        );
        if marked {
            count = count.saturating_add(1);
            proof {
                seen = seen + 1;
            }
        }
        i += 1;
    }
    proof {
        assert(ls.skip(ls.len() as int) =~= Seq::<Seq<char>>::empty());
    }
    count
}

} // verus!
