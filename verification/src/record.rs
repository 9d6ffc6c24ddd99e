//! The record and message data model: one parsed transcript line becomes a
//! [`RawRecord`], and records that carry a message become display-ready
//! [`DisplayMessage`]s.
//!
//! The parsing rules mirror the transcript format: a record is a JSON object
//! with a required `type` discriminator, optional identity and environment
//! fields, and an optional `message`; the message's `content` is either one
//! plain string or an ordered sequence of typed content blocks. A field of
//! the wrong shape makes the whole record malformed (it is skipped by the
//! callers), while an unknown block type is kept as a harmless `Unknown`.

use vstd::prelude::*;

use crate::json::{
    arr_view, clone_json, find_field, get_opt_bool, get_opt_str, get_req_str, json_view, node_view,
    obj_get, obj_view, opt_bool_field, opt_str_field, req_str_field, Json, JsonNode, JsonNodeV,
    JsonV,
};

verus! {

// ---------------------------------------------------------------------------
// The data model, with its mathematical mirror.
// ---------------------------------------------------------------------------
/// One raw transcript record.
pub struct RawRecord {
    pub record_type: String,
    pub uuid: Option<String>,
    pub parent_uuid: Option<String>,
    pub session_id: Option<String>,
    pub timestamp: Option<String>,
    pub message: Option<RawMessage>,
    pub is_sidechain: Option<bool>,
    pub cwd: Option<String>,
    pub version: Option<String>,
    pub git_branch: Option<String>,
    pub slug: Option<String>,
}

pub struct RawMessage {
    pub role: String,
    pub content: ContentValue,
}

/// A message's `content` is either one plain string or a block sequence;
/// the two shapes are told apart structurally, never by a tag.
pub enum ContentValue {
    Text(String),
    Blocks(Vec<ContentBlock>),
}

/// One typed content block of a raw message.
pub enum ContentBlock {
    Text { text: String },
    Thinking { thinking: String },
    /// `input` holds the canonical text form of the block's arbitrary
    /// JSON argument.
    ToolUse { id: String, name: String, input: String },
    /// `content` keeps the block's arbitrary JSON result, if any.
    ToolResult { tool_use_id: String, content: Option<Json>, is_error: Option<bool> },
    /// Any other block type; preserved as a no-op, never an error.
    Unknown,
}

/// A display-ready message.
pub struct DisplayMessage {
    pub uuid: Option<String>,
    pub role: String,
    pub timestamp: Option<String>,
    pub content: Vec<DisplayContentBlock>,
}

/// A display-ready content block; `Unknown` raw blocks have no display form.
pub enum DisplayContentBlock {
    Text { text: String },
    Thinking { thinking: String },
    ToolUse { id: String, name: String, input: String },
    ToolResult { tool_use_id: String, content: String, is_error: bool },
}

pub ghost struct RawRecordV {
    pub record_type: Seq<char>,
    pub uuid: Option<Seq<char>>,
    pub parent_uuid: Option<Seq<char>>,
    pub session_id: Option<Seq<char>>,
    pub timestamp: Option<Seq<char>>,
    pub message: Option<RawMessageV>,
    pub is_sidechain: Option<bool>,
    pub cwd: Option<Seq<char>>,
    pub version: Option<Seq<char>>,
    pub git_branch: Option<Seq<char>>,
    pub slug: Option<Seq<char>>,
}

pub ghost struct RawMessageV {
    pub role: Seq<char>,
    pub content: ContentValueV,
}

pub ghost enum ContentValueV {
    Text(Seq<char>),
    Blocks(Seq<ContentBlockV>),
}

pub ghost enum ContentBlockV {
    Text { text: Seq<char> },
    Thinking { thinking: Seq<char> },
    ToolUse { id: Seq<char>, name: Seq<char>, input: Seq<char> },
    ToolResult { tool_use_id: Seq<char>, content: Option<JsonV>, is_error: Option<bool> },
    Unknown,
}

pub ghost struct DisplayMessageV {
    pub uuid: Option<Seq<char>>,
    pub role: Seq<char>,
    pub timestamp: Option<Seq<char>>,
    pub content: Seq<DisplayBlockV>,
}

pub ghost enum DisplayBlockV {
    Text { text: Seq<char> },
    Thinking { thinking: Seq<char> },
    ToolUse { id: Seq<char>, name: Seq<char>, input: Seq<char> },
    ToolResult { tool_use_id: Seq<char>, content: Seq<char>, is_error: bool },
}

impl DeepView for RawRecord {
    type V = RawRecordV;

    open spec fn deep_view(&self) -> RawRecordV {
        RawRecordV {
            record_type: self.record_type@,
            uuid: self.uuid.deep_view(),
            parent_uuid: self.parent_uuid.deep_view(),
            session_id: self.session_id.deep_view(),
            timestamp: self.timestamp.deep_view(),
            message: self.message.deep_view(),
            is_sidechain: self.is_sidechain,
            cwd: self.cwd.deep_view(),
            version: self.version.deep_view(),
            git_branch: self.git_branch.deep_view(),
            slug: self.slug.deep_view(),
        }
    }
}

impl DeepView for RawMessage {
    type V = RawMessageV;

    open spec fn deep_view(&self) -> RawMessageV {
        RawMessageV { role: self.role@, content: self.content.deep_view() }
    }
}

impl DeepView for ContentValue {
    type V = ContentValueV;

    open spec fn deep_view(&self) -> ContentValueV {
        match self {
            ContentValue::Text(s) => ContentValueV::Text(s@),
            ContentValue::Blocks(bs) => ContentValueV::Blocks(bs.deep_view()),
        }
    }
}

impl DeepView for ContentBlock {
    type V = ContentBlockV;

    open spec fn deep_view(&self) -> ContentBlockV {
        match self {
            ContentBlock::Text { text } => ContentBlockV::Text { text: text@ },
            ContentBlock::Thinking { thinking } => ContentBlockV::Thinking { thinking: thinking@ },
            ContentBlock::ToolUse { id, name, input } => ContentBlockV::ToolUse {
                id: id@,
                name: name@,
                input: input@,
            },
            ContentBlock::ToolResult { tool_use_id, content, is_error } => (
                ContentBlockV::ToolResult {
                    tool_use_id: tool_use_id@,
                    content: content.deep_view(),
                    is_error: *is_error,
                }
            ),
            ContentBlock::Unknown => ContentBlockV::Unknown,
        }
    }
}

impl DeepView for DisplayMessage {
    type V = DisplayMessageV;

    open spec fn deep_view(&self) -> DisplayMessageV {
        DisplayMessageV {
            uuid: self.uuid.deep_view(),
            role: self.role@,
            timestamp: self.timestamp.deep_view(),
            content: self.content.deep_view(),
        }
    }
}

impl DeepView for DisplayContentBlock {
    type V = DisplayBlockV;

    open spec fn deep_view(&self) -> DisplayBlockV {
        match self {
            DisplayContentBlock::Text { text } => DisplayBlockV::Text { text: text@ },
            DisplayContentBlock::Thinking { thinking } => DisplayBlockV::Thinking {
                thinking: thinking@,
            },
            DisplayContentBlock::ToolUse { id, name, input } => DisplayBlockV::ToolUse {
                id: id@,
                name: name@,
                input: input@,
            },
            DisplayContentBlock::ToolResult { tool_use_id, content, is_error } => (
                DisplayBlockV::ToolResult {
                    tool_use_id: tool_use_id@,
                    content: content@,
                    is_error: *is_error,
                }
            ),
        }
    }
}

// ---------------------------------------------------------------------------
// What one parsed line means, as specifications.
// ---------------------------------------------------------------------------
/// One typed content block, read from one element of a `content` array.
pub open spec fn block_of(v: JsonV) -> Option<ContentBlockV> {
    match v.node {
        JsonNodeV::Obj(bf) => match req_str_field(bf, "type"@) {
            None => None,
            Some(t) => if t == "text"@ {
                match req_str_field(bf, "text"@) {
                    Some(s) => Some(ContentBlockV::Text { text: s }),
                    None => None,
                }
            } else if t == "thinking"@ {
                match req_str_field(bf, "thinking"@) {
                    Some(s) => Some(ContentBlockV::Thinking { thinking: s }),
                    None => None,
                }
            } else if t == "tool_use"@ {
                match req_str_field(bf, "id"@) {
                    None => None,
                    Some(id) => match req_str_field(bf, "name"@) {
                        None => None,
                        Some(name) => match obj_get(bf, "input"@) {
                            Some(iv) => Some(
                                ContentBlockV::ToolUse { id, name, input: iv.rendered },
                            ),
                            None => None,
                        },
                    },
                }
            } else if t == "tool_result"@ {
                match req_str_field(bf, "tool_use_id"@) {
                    None => None,
                    Some(tool_use_id) => match opt_bool_field(bf, "is_error"@) {
                        None => None,
                        Some(is_error) => Some(
                            ContentBlockV::ToolResult {
                                tool_use_id,
                                content: match obj_get(bf, "content"@) {
                                    None => None,
                                    Some(cv) => if cv.node is Null {
                                        None
                                    } else {
                                        Some(cv)
                                    },
                                },
                                is_error,
                            },
                        ),
                    },
                }
            } else {
                Some(ContentBlockV::Unknown)
            },
        },
        _ => None,
    }
}

/// A whole `content` array: every element must be a well-formed block.
pub open spec fn blocks_of(items: Seq<JsonV>) -> Option<Seq<ContentBlockV>>
    decreases items,
{
    if items.len() == 0 {
        Some(Seq::empty())
    } else {
        match block_of(items[0]) {
            None => None,
            Some(b) => match blocks_of(items.drop_first()) {
                None => None,
                Some(rest) => Some(seq![b] + rest),
            },
        }
    }
}

/// A raw message: a required string `role` and a `content` that is either
/// one string or a block array.
pub open spec fn message_of_fields(mf: Seq<(Seq<char>, JsonV)>) -> Option<RawMessageV> {
    match req_str_field(mf, "role"@) {
        None => None,
        Some(role) => match obj_get(mf, "content"@) {
            None => None,
            Some(cv) => match cv.node {
                JsonNodeV::Str(s) => Some(RawMessageV { role, content: ContentValueV::Text(s) }),
                JsonNodeV::Arr(items) => match blocks_of(items) {
                    None => None,
                    Some(bs) => Some(
                        RawMessageV { role, content: ContentValueV::Blocks(bs) },
                    ),
                },
                _ => None,
            },
        },
    }
}

/// The optional `message` field: absent or null means none; an object must
/// parse as a message; anything else makes the record malformed.
pub open spec fn msg_field(f: Seq<(Seq<char>, JsonV)>) -> Option<Option<RawMessageV>> {
    match obj_get(f, "message"@) {
        None => Some(None),
        Some(v) => match v.node {
            JsonNodeV::Null => Some(None),
            JsonNodeV::Obj(mf) => match message_of_fields(mf) {
                Some(m) => Some(Some(m)),
                None => None,
            },
            _ => None,
        },
    }
}

/// One record, read from the fields of a top-level JSON object.
pub open spec fn record_of_fields(f: Seq<(Seq<char>, JsonV)>) -> Option<RawRecordV> {
    if req_str_field(f, "type"@) is Some && opt_str_field(f, "uuid"@) is Some && opt_str_field(
        f,
        "parentUuid"@,
    ) is Some && opt_str_field(f, "sessionId"@) is Some && opt_str_field(f, "timestamp"@) is Some
        && opt_str_field(f, "cwd"@) is Some && opt_str_field(f, "version"@) is Some
        && opt_str_field(f, "gitBranch"@) is Some && opt_str_field(f, "slug"@) is Some
        && opt_bool_field(f, "isSidechain"@) is Some && msg_field(f) is Some {
        Some(
            RawRecordV {
                record_type: req_str_field(f, "type"@)->0,
                uuid: opt_str_field(f, "uuid"@)->0,
                parent_uuid: opt_str_field(f, "parentUuid"@)->0,
                session_id: opt_str_field(f, "sessionId"@)->0,
                timestamp: opt_str_field(f, "timestamp"@)->0,
                message: msg_field(f)->0,
                is_sidechain: opt_bool_field(f, "isSidechain"@)->0,
                cwd: opt_str_field(f, "cwd"@)->0,
                version: opt_str_field(f, "version"@)->0,
                git_branch: opt_str_field(f, "gitBranch"@)->0,
                slug: opt_str_field(f, "slug"@)->0,
            },
        )
    } else {
        None
    }
}

/// One record, read from one parsed line: the line must be a JSON object.
pub open spec fn record_of_json(j: JsonV) -> Option<RawRecordV> {
    match j.node {
        JsonNodeV::Obj(f) => record_of_fields(f),
        _ => None,
    }
}

// ---------------------------------------------------------------------------
// What a record displays as, as specifications.
// ---------------------------------------------------------------------------
/// Text contributed by one element of a block-array `tool_result` content:
/// the `text` of a `text`-typed block, nothing otherwise.
pub open spec fn part_text(v: JsonV) -> Seq<char> {
    match v.node {
        JsonNodeV::Obj(f) => match req_str_field(f, "type"@) {
            Some(t) => if t == "text"@ {
                match req_str_field(f, "text"@) {
                    Some(s) => s,
                    None => Seq::empty(),
                }
            } else {
                Seq::empty()
            },
            None => Seq::empty(),
        },
        _ => Seq::empty(),
    }
}

/// A block-array `tool_result` content flattens to the concatenation of its
/// textual parts.
pub open spec fn parts_text(items: Seq<JsonV>) -> Seq<char>
    decreases items,
{
    if items.len() == 0 {
        Seq::empty()
    } else {
        part_text(items[0]) + parts_text(items.drop_first())
    }
}

/// The display form of a `tool_result` content: absent or null is empty, a
/// string is itself, a block array flattens to its textual parts, and any
/// other JSON displays as its canonical text form.
pub open spec fn tool_result_text(c: Option<JsonV>) -> Seq<char> {
    match c {
        None => Seq::empty(),
        Some(v) => match v.node {
            JsonNodeV::Null => Seq::empty(),
            JsonNodeV::Str(s) => s,
            JsonNodeV::Arr(items) => parts_text(items),
            _ => v.rendered,
        },
    }
}

/// The display form of one raw block; `Unknown` has none and is dropped.
pub open spec fn block_display(b: ContentBlockV) -> Option<DisplayBlockV> {
    match b {
        ContentBlockV::Text { text } => Some(DisplayBlockV::Text { text }),
        ContentBlockV::Thinking { thinking } => Some(DisplayBlockV::Thinking { thinking }),
        ContentBlockV::ToolUse { id, name, input } => Some(
            DisplayBlockV::ToolUse { id, name, input },
        ),
        ContentBlockV::ToolResult { tool_use_id, content, is_error } => Some(
            DisplayBlockV::ToolResult {
                tool_use_id,
                content: tool_result_text(content),
                is_error: match is_error {
                    Some(b) => b,
                    None => false,
                },
            },
        ),
        ContentBlockV::Unknown => None,
    }
}

/// The display forms of a block sequence, in order, `Unknown` dropped.
pub open spec fn display_blocks(bs: Seq<ContentBlockV>) -> Seq<DisplayBlockV>
    decreases bs,
{
    if bs.len() == 0 {
        Seq::empty()
    } else {
        match block_display(bs[0]) {
            Some(d) => seq![d] + display_blocks(bs.drop_first()),
            None => display_blocks(bs.drop_first()),
        }
    }
}

/// The display form of a record: only records carrying a message display;
/// a plain-string content displays as one text block.
pub open spec fn display_of_record(r: RawRecordV) -> Option<DisplayMessageV> {
    match r.message {
        None => None,
        Some(m) => Some(
            DisplayMessageV {
                uuid: r.uuid,
                role: m.role,
                timestamp: r.timestamp,
                content: match m.content {
                    ContentValueV::Text(s) => seq![DisplayBlockV::Text { text: s }],
                    ContentValueV::Blocks(bs) => display_blocks(bs),
                },
            },
        ),
    }
}

/// What one raw line parses to: nothing unless it is well-formed JSON
/// forming a well-formed record.
pub open spec fn record_of_line(line: Seq<char>) -> Option<RawRecordV> {
    match crate::json::json_of_text(line) {
        None => None,
        Some(j) => record_of_json(j),
    }
}

/// What one raw line contributes to the display transcript: nothing unless
/// it parses as a record that carries a message.
pub open spec fn display_of_line(line: Seq<char>) -> Option<DisplayMessageV> {
    match record_of_line(line) {
        None => None,
        Some(r) => display_of_record(r),
    }
}

} // verus!

verus! {

// ---------------------------------------------------------------------------
// Executable parsing, verified against the specifications above.
// ---------------------------------------------------------------------------
/// Parses one element of a `content` array into a typed block.
fn parse_block(v: &Json) -> (r: Option<ContentBlock>)
    ensures
        r.deep_view() == block_of(v@),
{
    match &v.node {
        JsonNode::Obj(bf) => {
            let t = match get_req_str(bf, "type") {
                Some(t) => t,
                None => {
                    return None;
                },
            };
            if t == String::from_str("text") {
                match get_req_str(bf, "text") {
                    Some(s) => Some(ContentBlock::Text { text: s }),
                    None => None,
                }
            } else if t == String::from_str("thinking") {
                match get_req_str(bf, "thinking") {
                    Some(s) => Some(ContentBlock::Thinking { thinking: s }),
                    None => None,
                }
            } else if t == String::from_str("tool_use") {
                let id = match get_req_str(bf, "id") {
                    Some(s) => s,
                    None => {
                        return None;
                    },
                };
                let name = match get_req_str(bf, "name") {
                    Some(s) => s,
                    None => {
                        return None;
                    },
                };
                match find_field(bf, "input") {
                    Some(iv) => Some(ContentBlock::ToolUse { id, name, input: iv.rendered.clone() }),
                    None => None,
                }
            } else if t == String::from_str("tool_result") {
                let tool_use_id = match get_req_str(bf, "tool_use_id") {
                    Some(s) => s,
                    None => {
                        return None;
                    },
                };
                let is_error = match get_opt_bool(bf, "is_error") {
                    Some(b) => b,
                    None => {
                        return None;
                    },
                };
                let content = match find_field(bf, "content") {
                    None => None,
                    Some(cv) => match &cv.node {
                        JsonNode::Null => None,
                        _ => Some(clone_json(cv)),
                    },
                };
                Some(ContentBlock::ToolResult { tool_use_id, content, is_error })
            } else {
                Some(ContentBlock::Unknown)
            }
        },
        _ => None,
    }
}

/// Parses a whole `content` array; any malformed element fails the array.
fn parse_blocks(items: &Vec<Json>) -> (r: Option<Vec<ContentBlock>>)
    ensures
        r.deep_view() == blocks_of(arr_view(items@)),
{
    let ghost s = arr_view(items@);
    proof {
        crate::json::lemma_arr_view(items@);
        assert(s.skip(0) =~= s);
        assert(Seq::<ContentBlockV>::empty() + blocks_of(s)->0 =~= blocks_of(s)->0);
    }
    let mut out: Vec<ContentBlock> = Vec::new();
    let mut i: usize = 0;
    while i < items.len()
        invariant
            i <= items@.len(),
            s == arr_view(items@),
            s.len() == items@.len(),
            forall|k: int| 0 <= k < items@.len() ==> s[k] == json_view(items@[k]),
            blocks_of(s) == (match blocks_of(s.skip(i as int)) {
                Some(rest) => Some(out.deep_view() + rest),
                None => None::<Seq<ContentBlockV>>,
            }),
        decreases items@.len() - i,
    {
        proof {
            assert(s.skip(i as int)[0] == s[i as int]);
            assert(s.skip(i as int).drop_first() =~= s.skip(i as int + 1));
        }
        match parse_block(&items[i]) {
            None => {
                return None;
            },
            Some(b) => {
                let ghost old_out = out.deep_view();
                let ghost bv = b.deep_view();
                out.push(b);
                proof {
                    assert(out.deep_view() =~= old_out.push(bv));
                    if let Some(rest2) = blocks_of(s.skip(i as int + 1)) {
                        assert(blocks_of(s.skip(i as int)) == Some(seq![bv] + rest2));
                        assert(old_out + (seq![bv] + rest2) =~= old_out.push(bv) + rest2);
                    }
                }
            },
        }
        i += 1;
    }
    proof {
        assert(s.skip(s.len() as int) =~= Seq::<JsonV>::empty());
        assert(out.deep_view() + Seq::<ContentBlockV>::empty() =~= out.deep_view());
    }
    Some(out)
}

/// Parses the fields of a `message` object.
fn parse_message_fields(mf: &Vec<(String, Json)>) -> (r: Option<RawMessage>)
    ensures
        r.deep_view() == message_of_fields(obj_view(mf@)),
{
    let role = match get_req_str(mf, "role") {
        Some(s) => s,
        None => {
            return None;
        },
    };
    let content = match find_field(mf, "content") {
        None => {
            return None;
        },
        Some(cv) => match &cv.node {
            JsonNode::Str(s) => ContentValue::Text(s.clone()),
            JsonNode::Arr(items) => match parse_blocks(items) {
                Some(bs) => ContentValue::Blocks(bs),
                None => {
                    return None;
                },
            },
            _ => {
                return None;
            },
        },
    };
    Some(RawMessage { role, content })
}

/// Parses the fields of a top-level record object.
fn parse_record_fields(fields: &Vec<(String, Json)>) -> (r: Option<RawRecord>)
    ensures
        r.deep_view() == record_of_fields(obj_view(fields@)),
{
    let record_type = match get_req_str(fields, "type") {
        Some(s) => s,
        None => {
            return None;
        },
    };
    let uuid = match get_opt_str(fields, "uuid") {
        Some(v) => v,
        None => {
            return None;
        },
    };
    let parent_uuid = match get_opt_str(fields, "parentUuid") {
        Some(v) => v,
        None => {
            return None;
        },
    };
    let session_id = match get_opt_str(fields, "sessionId") {
        Some(v) => v,
        None => {
            return None;
        },
    };
    let timestamp = match get_opt_str(fields, "timestamp") {
        Some(v) => v,
        None => {
            return None;
        },
    };
    let cwd = match get_opt_str(fields, "cwd") {
        Some(v) => v,
        None => {
            return None;
        },
    };
    let version = match get_opt_str(fields, "version") {
        Some(v) => v,
        None => {
            return None;
        },
    };
    let git_branch = match get_opt_str(fields, "gitBranch") {
        Some(v) => v,
        None => {
            return None;
        },
    };
    let slug = match get_opt_str(fields, "slug") {
        Some(v) => v,
        None => {
            return None;
        },
    };
    let is_sidechain = match get_opt_bool(fields, "isSidechain") {
        Some(v) => v,
        None => {
            return None;
        },
    };
    let message = match find_field(fields, "message") {
        None => None,
        Some(mv) => match &mv.node {
            JsonNode::Null => None,
            JsonNode::Obj(mf) => match parse_message_fields(mf) {
                Some(m) => Some(m),
                None => {
                    return None;
                },
            },
            _ => {
                return None;
            },
        },
    };
    Some(
        RawRecord {
            record_type,
            uuid,
            parent_uuid,
            session_id,
            timestamp,
            message,
            is_sidechain,
            cwd,
            version,
            git_branch,
            slug,
        },
    )
}

/// Parses one already-decoded JSON value as a record.
pub fn parse_record(j: &Json) -> (r: Option<RawRecord>)
    ensures
        r.deep_view() == record_of_json(j@),
{
    match &j.node {
        JsonNode::Obj(fields) => parse_record_fields(fields),
        _ => None,
    }
}

/// Parses one raw transcript line; malformed JSON yields `None`, never an
/// error.
pub fn parse_line(line: &str) -> (r: Option<RawRecord>)
    ensures
        r.deep_view() == record_of_line(line@),
{
    match crate::json::parse_json_text(line) {
        None => None,
        Some(j) => parse_record(&j),
    }
}

} // verus!

verus! {

// ---------------------------------------------------------------------------
// Executable display mapping.
// ---------------------------------------------------------------------------
/// Text contributed by one element of a block-array `tool_result` content.
fn part_string(v: &Json) -> (r: String)
    ensures
        r@ == part_text(v@),
{
    match &v.node {
        JsonNode::Obj(f) => match get_req_str(f, "type") {
            Some(t) => if t == String::from_str("text") {
                match get_req_str(f, "text") {
                    Some(s) => s,
                    None => String::new(),
                }
            } else {
                String::new()
            },
            None => String::new(),
        },
        _ => String::new(),
    }
}

/// Flattens a block-array `tool_result` content to its textual parts.
fn parts_string(items: &Vec<Json>) -> (r: String)
    ensures
        r@ == parts_text(arr_view(items@)),
{
    let ghost s = arr_view(items@);
    proof {
        crate::json::lemma_arr_view(items@);
        assert(s.skip(0) =~= s);
    }
    let mut out = String::new();
    let mut i: usize = 0;
    while i < items.len()
        invariant
            i <= items@.len(),
            s == arr_view(items@),
            s.len() == items@.len(),
            forall|k: int| 0 <= k < items@.len() ==> s[k] == json_view(items@[k]),
            parts_text(s) == out@ + parts_text(s.skip(i as int)),
        decreases items@.len() - i,
    {
        proof {
            assert(s.skip(i as int)[0] == s[i as int]);
            assert(s.skip(i as int).drop_first() =~= s.skip(i as int + 1));
        }
        let ghost old_out = out@;
        let piece = part_string(&items[i]);
        out.append(piece.as_str());
        proof {
            assert(parts_text(s.skip(i as int)) == part_text(s[i as int]) + parts_text(
                s.skip(i as int + 1),
            ));
            assert(old_out + (part_text(s[i as int]) + parts_text(s.skip(i as int + 1))) =~= (
            old_out + part_text(s[i as int])) + parts_text(s.skip(i as int + 1)));
        }
        i += 1;
    }
    proof {
        assert(s.skip(s.len() as int) =~= Seq::<JsonV>::empty());
        assert(out@ + Seq::<char>::empty() =~= out@);
    }
    out
}

/// The display string of a `tool_result` content.
fn tool_result_string(c: &Option<Json>) -> (r: String)
    ensures
        r@ == tool_result_text(c.deep_view()),
{
    match c {
        None => String::new(),
        Some(j) => match &j.node {
            JsonNode::Null => String::new(),
            JsonNode::Str(s) => s.clone(),
            JsonNode::Arr(items) => parts_string(items),
            _ => j.rendered.clone(),
        },
    }
}

/// Renders raw blocks to display blocks, dropping `Unknown` ones.
fn render_blocks(bs: Vec<ContentBlock>) -> (r: Vec<DisplayContentBlock>)
    ensures
        r.deep_view() == display_blocks(bs.deep_view()),
{
    let ghost s = bs.deep_view();
    proof {
        assert(s.skip(0) =~= s);
    }
    let mut rest = bs;
    let mut out: Vec<DisplayContentBlock> = Vec::new();
    let ghost mut i: int = 0;
    while rest.len() > 0
        invariant
            0 <= i <= s.len(),
            rest.deep_view() =~= s.skip(i),
            display_blocks(s) == out.deep_view() + display_blocks(s.skip(i)),
        decreases rest@.len(),
    {
        proof {
            assert(s.skip(i)[0] == s[i]);
            assert(s.skip(i).drop_first() =~= s.skip(i + 1));
            assert(rest.deep_view()[0] == rest@[0].deep_view());
        }
        let b = rest.remove(0);
        let ghost old_out = out.deep_view();
        let d = match b {
            ContentBlock::Text { text } => Some(DisplayContentBlock::Text { text }),
            ContentBlock::Thinking { thinking } => Some(
                DisplayContentBlock::Thinking { thinking },
            ),
            ContentBlock::ToolUse { id, name, input } => Some(
                DisplayContentBlock::ToolUse { id, name, input },
            ),
            ContentBlock::ToolResult { tool_use_id, content, is_error } => {
                let rendered = tool_result_string(&content);
                Some(
                    DisplayContentBlock::ToolResult {
                        tool_use_id,
                        content: rendered,
                        is_error: match is_error {
                            Some(e) => e,
                            None => false,
                        },
                    },
                )
            },
            ContentBlock::Unknown => None,
        };
        match d {
            Some(db) => {
                let ghost dv = db.deep_view();
                out.push(db);
                proof {
                    assert(out.deep_view() =~= old_out.push(dv));
                    assert(display_blocks(s.skip(i)) == seq![dv] + display_blocks(s.skip(i + 1)));
                    assert(old_out + (seq![dv] + display_blocks(s.skip(i + 1))) =~= old_out.push(dv)
                        + display_blocks(s.skip(i + 1)));
                }
            },
            None => {
                proof {
                    assert(display_blocks(s.skip(i)) == display_blocks(s.skip(i + 1)));
                }
            },
        }
        proof {
            i = i + 1;
            assert(rest.deep_view() =~= s.skip(i));
        }
    }
    proof {
        assert(s.skip(s.len() as int) =~= Seq::<ContentBlockV>::empty());
        assert(out.deep_view() + Seq::<DisplayBlockV>::empty() =~= out.deep_view());
    }
    out
}

/// The display form of a record, if it carries a message.
pub fn to_display(rec: RawRecord) -> (r: Option<DisplayMessage>)
    ensures
        r.deep_view() == display_of_record(rec.deep_view()),
{
    match rec.message {
        None => None,
        Some(m) => {
            let content = match m.content {
                ContentValue::Text(s) => {
                    let mut v: Vec<DisplayContentBlock> = Vec::new();
                    v.push(DisplayContentBlock::Text { text: s });
                    proof {
                        assert(v.deep_view() =~= seq![
                            DisplayContentBlock::Text { text: s }.deep_view(),
                        ]);
                    }
                    v
                },
                ContentValue::Blocks(bs) => render_blocks(bs),
            };
            Some(
                DisplayMessage {
                    uuid: rec.uuid,
                    role: m.role,
                    timestamp: rec.timestamp,
                    content,
                },
            )
        },
    }
}

/// Parses one raw line straight to its display form, if any.
pub fn display_line(line: &str) -> (r: Option<DisplayMessage>)
    ensures
        r.deep_view() == display_of_line(line@),
{
    match parse_line(line) {
        None => None,
        Some(rec) => to_display(rec),
    }
}

} // verus!

verus! {

/// A `tool_result` block whose raw content is absent or null, and whose
/// error flag is absent, displays with an empty content string and with
/// `is_error` false.
pub proof fn lemma_tool_result_null_display(
    tool_use_id: Seq<char>,
    content: Option<JsonV>,
    is_error: Option<bool>,
)
    requires
        content matches Some(j) ==> j.node is Null,
        is_error is None,
    ensures
        block_display(
            (ContentBlockV::ToolResult { tool_use_id, content, is_error }),
        ) == Some(
            (DisplayBlockV::ToolResult {
                tool_use_id,
                content: Seq::<char>::empty(),
                is_error: false,
            }),
        ),
{
}

} // verus!
