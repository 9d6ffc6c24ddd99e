//! The project catalog: the `Project` rows a corpus listing shows, the
//! per-project `sessions-index.json` file, and the session entries derived
//! from scanning transcript files when no usable index exists.

use vstd::prelude::*;

use crate::json::{
    find_field, get_opt_bool, get_opt_str, get_req_str, obj_get, obj_view, opt_bool_field,
    opt_str_field, req_str_field, Json, JsonNode, JsonNodeV, JsonV,
};
use crate::order::{opt_le_exec, sort_by_key_desc, sorted_desc, SortKey};
use crate::path_codec::{decode_project_path, decode_spec, short_name_from_path, short_name_spec};
use crate::transcript::{
    count_marked, count_messages, extract_first_prompt, extract_session_metadata, first_prompt_of,
    metadata_of,
};
use crate::text::lines_of;

verus! {

/// One project of the corpus, as a catalog listing shows it.
pub struct Project {
    /// The encoded directory name the project's logs live under.
    pub encoded_name: String,
    /// The decoded, human-readable path.
    pub display_path: String,
    /// The last path segment, for short display.
    pub short_name: String,
    /// Number of transcript files under the project directory.
    pub session_count: usize,
    /// Directory modification time, as RFC 3339 text, when known.
    pub last_modified: Option<String>,
}

pub ghost struct ProjectV {
    pub encoded_name: Seq<char>,
    pub display_path: Seq<char>,
    pub short_name: Seq<char>,
    pub session_count: usize,
    pub last_modified: Option<Seq<char>>,
}

impl DeepView for Project {
    type V = ProjectV;

    open spec fn deep_view(&self) -> ProjectV {
        ProjectV {
            encoded_name: self.encoded_name@,
            display_path: self.display_path@,
            short_name: self.short_name@,
            session_count: self.session_count,
            last_modified: self.last_modified.deep_view(),
        }
    }
}

impl SortKey for Project {
    open spec fn sort_key(&self) -> Option<Seq<char>> {
        self.last_modified.deep_view()
    }

    fn key_le(&self, other: &Self) -> (r: bool) {
        opt_le_exec(&self.last_modified, &other.last_modified)
    }
}

/// One entry of a per-project `sessions-index.json`.
pub struct SessionIndexEntry {
    pub session_id: String,
    pub full_path: Option<String>,
    pub file_mtime: Option<u64>,
    pub first_prompt: Option<String>,
    pub message_count: Option<u32>,
    pub created: Option<String>,
    pub modified: Option<String>,
    pub git_branch: Option<String>,
    pub project_path: Option<String>,
    pub is_sidechain: Option<bool>,
}

pub ghost struct SessionIndexEntryV {
    pub session_id: Seq<char>,
    pub full_path: Option<Seq<char>>,
    pub file_mtime: Option<u64>,
    pub first_prompt: Option<Seq<char>>,
    pub message_count: Option<u32>,
    pub created: Option<Seq<char>>,
    pub modified: Option<Seq<char>>,
    pub git_branch: Option<Seq<char>>,
    pub project_path: Option<Seq<char>>,
    pub is_sidechain: Option<bool>,
}

impl DeepView for SessionIndexEntry {
    type V = SessionIndexEntryV;

    open spec fn deep_view(&self) -> SessionIndexEntryV {
        SessionIndexEntryV {
            session_id: self.session_id@,
            full_path: self.full_path.deep_view(),
            file_mtime: self.file_mtime,
            first_prompt: self.first_prompt.deep_view(),
            message_count: self.message_count,
            created: self.created.deep_view(),
            modified: self.modified.deep_view(),
            git_branch: self.git_branch.deep_view(),
            project_path: self.project_path.deep_view(),
            is_sidechain: self.is_sidechain,
        }
    }
}

impl SortKey for SessionIndexEntry {
    open spec fn sort_key(&self) -> Option<Seq<char>> {
        self.modified.deep_view()
    }

    fn key_le(&self, other: &Self) -> (r: bool) {
        opt_le_exec(&self.modified, &other.modified)
    }
}

/// A whole `sessions-index.json` file.
pub struct SessionsIndex {
    pub version: Option<u32>,
    pub entries: Vec<SessionIndexEntry>,
    pub original_path: Option<String>,
}

pub ghost struct SessionsIndexV {
    pub version: Option<u32>,
    pub entries: Seq<SessionIndexEntryV>,
    pub original_path: Option<Seq<char>>,
}

impl DeepView for SessionsIndex {
    type V = SessionsIndexV;

    open spec fn deep_view(&self) -> SessionsIndexV {
        SessionsIndexV {
            version: self.version,
            entries: self.entries.deep_view(),
            original_path: self.original_path.deep_view(),
        }
    }
}

/// Session facts derived by scanning one transcript file directly, when no
/// usable index exists.
pub struct SessionInfo {
    pub session_id: String,
    pub first_prompt: Option<String>,
    pub message_count: u32,
    pub created: Option<String>,
    pub modified: Option<String>,
    pub git_branch: Option<String>,
    pub project_path: Option<String>,
}

// ---------------------------------------------------------------------------
// Parsing the sessions index.
// ---------------------------------------------------------------------------
/// An optional unsigned-integer field: absent or null means no value; a
/// non-integer value makes the document malformed.
pub open spec fn opt_u64_field(f: Seq<(Seq<char>, JsonV)>, key: Seq<char>) -> Option<Option<u64>> {
    match obj_get(f, key) {
        Some(v) => match v.node {
            JsonNodeV::Null => Some(None),
            JsonNodeV::UInt(u) => Some(Some(u)),
            _ => None,
        },
        None => Some(None),
    }
}

/// As [`opt_u64_field`], further requiring the value to fit in `u32`.
pub open spec fn opt_u32_field(f: Seq<(Seq<char>, JsonV)>, key: Seq<char>) -> Option<Option<u32>> {
    match opt_u64_field(f, key) {
        None => None,
        Some(None) => Some(None),
        Some(Some(u)) => if u <= u32::MAX as u64 {
            Some(Some(u as u32))
        } else {
            None
        },
    }
}

/// One index entry, read from one element of the `entries` array.
pub open spec fn entry_of(v: JsonV) -> Option<SessionIndexEntryV> {
    match v.node {
        JsonNodeV::Obj(ef) => {
            if req_str_field(ef, "sessionId"@) is Some && opt_str_field(ef, "fullPath"@) is Some
                && opt_u64_field(ef, "fileMtime"@) is Some && opt_str_field(
                ef,
                "firstPrompt"@,
            ) is Some && opt_u32_field(ef, "messageCount"@) is Some && opt_str_field(
                ef,
                "created"@,
            ) is Some && opt_str_field(ef, "modified"@) is Some && opt_str_field(
                ef,
                "gitBranch"@,
            ) is Some && opt_str_field(ef, "projectPath"@) is Some && opt_bool_field(
                ef,
                "isSidechain"@,
            ) is Some {
                Some(
                    SessionIndexEntryV {
                        session_id: req_str_field(ef, "sessionId"@)->0,
                        full_path: opt_str_field(ef, "fullPath"@)->0,
                        file_mtime: opt_u64_field(ef, "fileMtime"@)->0,
                        first_prompt: opt_str_field(ef, "firstPrompt"@)->0,
                        message_count: opt_u32_field(ef, "messageCount"@)->0,
                        created: opt_str_field(ef, "created"@)->0,
                        modified: opt_str_field(ef, "modified"@)->0,
                        git_branch: opt_str_field(ef, "gitBranch"@)->0,
                        project_path: opt_str_field(ef, "projectPath"@)->0,
                        is_sidechain: opt_bool_field(ef, "isSidechain"@)->0,
                    },
                )
            } else {
                None
            }
        },
        _ => None,
    }
}

/// A whole `entries` array; every element must be a well-formed entry.
pub open spec fn entries_of(items: Seq<JsonV>) -> Option<Seq<SessionIndexEntryV>>
    decreases items,
{
    if items.len() == 0 {
        Some(Seq::empty())
    } else {
        match entry_of(items[0]) {
            None => None,
            Some(e) => match entries_of(items.drop_first()) {
                None => None,
                Some(rest) => Some(seq![e] + rest),
            },
        }
    }
}

/// A sessions index document: an object with a required `entries` array,
/// an optional numeric `version` and an optional `originalPath`.
pub open spec fn index_of_json(j: JsonV) -> Option<SessionsIndexV> {
    match j.node {
        JsonNodeV::Obj(f) => {
            match obj_get(f, "entries"@) {
                Some(ev) => match ev.node {
                    JsonNodeV::Arr(items) => {
                        if entries_of(items) is Some && opt_u32_field(f, "version"@) is Some
                            && opt_str_field(f, "originalPath"@) is Some {
                            Some(
                                SessionsIndexV {
                                    version: opt_u32_field(f, "version"@)->0,
                                    entries: entries_of(items)->0,
                                    original_path: opt_str_field(f, "originalPath"@)->0,
                                },
                            )
                        } else {
                            None
                        }
                    },
                    _ => None,
                },
                None => None,
            }
        },
        _ => None,
    }
}

/// What parsing a `sessions-index.json` text yields.
pub open spec fn sessions_index_of(text: Seq<char>) -> Option<SessionsIndexV> {
    match crate::json::json_of_text(text) {
        None => None,
        Some(j) => index_of_json(j),
    }
}

/// Reads an optional unsigned-integer field of an object.
fn get_opt_u64(fields: &Vec<(String, Json)>, key: &str) -> (r: Option<Option<u64>>)
    ensures
        r == opt_u64_field(obj_view(fields@), key@),
{
    match find_field(fields, key) {
        Some(v) => match &v.node {
            JsonNode::Null => Some(None),
            JsonNode::UInt(u) => Some(Some(*u)),
            _ => None,
        },
        None => Some(None),
    }
}

/// Reads an optional unsigned-integer field that must fit in `u32`.
fn get_opt_u32(fields: &Vec<(String, Json)>, key: &str) -> (r: Option<Option<u32>>)
    ensures
        r == opt_u32_field(obj_view(fields@), key@),
{
    match get_opt_u64(fields, key) {
        None => None,
        Some(None) => Some(None),
        Some(Some(u)) => {
            if u <= u32::MAX as u64 {
                Some(Some(u as u32))
            } else {
                None
            }
        },
    }
}

/// Parses one element of the `entries` array.
fn parse_entry(v: &Json) -> (r: Option<SessionIndexEntry>)
    ensures
        r.deep_view() == entry_of(v@),
{
    match &v.node {
        JsonNode::Obj(ef) => {
            let session_id = match get_req_str(ef, "sessionId") {
                Some(s) => s,
                None => {
                    return None;
                },
            };
            let full_path = match get_opt_str(ef, "fullPath") {
                Some(x) => x,
                None => {
                    return None;
                },
            };
            let file_mtime = match get_opt_u64(ef, "fileMtime") {
                Some(x) => x,
                None => {
                    return None;
                },
            };
            let first_prompt = match get_opt_str(ef, "firstPrompt") {
                Some(x) => x,
                None => {
                    return None;
                },
            };
            let message_count = match get_opt_u32(ef, "messageCount") {
                Some(x) => x,
                None => {
                    return None;
                },
            };
            let created = match get_opt_str(ef, "created") {
                Some(x) => x,
                None => {
                    return None;
                },
            };
            let modified = match get_opt_str(ef, "modified") {
                Some(x) => x,
                None => {
                    return None;
                },
            };
            let git_branch = match get_opt_str(ef, "gitBranch") {
                Some(x) => x,
                None => {
                    return None;
                },
            };
            let project_path = match get_opt_str(ef, "projectPath") {
                Some(x) => x,
                None => {
                    return None;
                },
            };
            let is_sidechain = match get_opt_bool(ef, "isSidechain") {
                Some(x) => x,
                None => {
                    return None;
                },
            };
            Some(
                SessionIndexEntry {
                    session_id,
                    full_path,
                    file_mtime,
                    first_prompt,
                    message_count,
                    created,
                    modified,
                    git_branch,
                    project_path,
                    is_sidechain,
                },
            )
        },
        _ => None,
    }
}

/// Parses a whole `entries` array.
fn parse_entries(items: &Vec<Json>) -> (r: Option<Vec<SessionIndexEntry>>)
    ensures
        r.deep_view() == entries_of(crate::json::arr_view(items@)),
{
    let ghost s = crate::json::arr_view(items@);
    proof {
        crate::json::lemma_arr_view(items@);
        assert(s.skip(0) =~= s);
    }
    let mut out: Vec<SessionIndexEntry> = Vec::new();
    let mut i: usize = 0;
    while i < items.len()
        invariant
            i <= items@.len(),
            s == crate::json::arr_view(items@),
            s.len() == items@.len(),
            forall|k: int| 0 <= k < items@.len() ==> s[k] == crate::json::json_view(items@[k]),
            entries_of(s) == (match entries_of(s.skip(i as int)) {
                Some(rest) => Some(out.deep_view() + rest),
                None => None::<Seq<SessionIndexEntryV>>,
            }),
        decreases items@.len() - i,
    {
        proof {
            assert(s.skip(i as int)[0] == s[i as int]);
            assert(s.skip(i as int).drop_first() =~= s.skip(i as int + 1));
        }
        match parse_entry(&items[i]) {
            None => {
                return None;
            },
            Some(e) => {
                let ghost old_out = out.deep_view();
                let ghost ev = e.deep_view();
                out.push(e);
                proof {
                    assert(out.deep_view() =~= old_out.push(ev));
                    if let Some(rest2) = entries_of(s.skip(i as int + 1)) {
                        assert(entries_of(s.skip(i as int)) == Some(seq![ev] + rest2));
                        assert(old_out + (seq![ev] + rest2) =~= old_out.push(ev) + rest2);
                    }
                }
            },
        }
        i += 1;
    }
    proof {
        assert(s.skip(s.len() as int) =~= Seq::<JsonV>::empty());
        assert(out.deep_view() + Seq::<SessionIndexEntryV>::empty() =~= out.deep_view());
    }
    Some(out)
}

/// Parses a `sessions-index.json` text; any malformed part yields `None`.
pub fn parse_sessions_index(content: &str) -> (r: Option<SessionsIndex>)
    ensures
        r.deep_view() == sessions_index_of(content@),
{
    let j = match crate::json::parse_json_text(content) {
        Some(j) => j,
        None => {
            return None;
        },
    };
    match &j.node {
        JsonNode::Obj(f) => {
            let entries = match find_field(f, "entries") {
                Some(ev) => match &ev.node {
                    JsonNode::Arr(items) => match parse_entries(items) {
                        Some(es) => es,
                        None => {
                            return None;
                        },
                    },
                    _ => {
                        return None;
                    },
                },
                None => {
                    return None;
                },
            };
            let version = match get_opt_u32(f, "version") {
                Some(x) => x,
                None => {
                    return None;
                },
            };
            let original_path = match get_opt_str(f, "originalPath") {
                Some(x) => x,
                None => {
                    return None;
                },
            };
            Some(SessionsIndex { version, entries, original_path })
        },
        _ => None,
    }
}

// ---------------------------------------------------------------------------
// Assembling the project list.
// ---------------------------------------------------------------------------
/// What enumeration hands the catalog for one project directory: its
/// encoded name, its transcript-file count, and its modification time.
pub struct ProjectSource {
    pub encoded_name: String,
    pub session_count: usize,
    pub last_modified: Option<String>,
}

pub ghost struct ProjectSourceV {
    pub encoded_name: Seq<char>,
    pub session_count: usize,
    pub last_modified: Option<Seq<char>>,
}

impl DeepView for ProjectSource {
    type V = ProjectSourceV;

    open spec fn deep_view(&self) -> ProjectSourceV {
        ProjectSourceV {
            encoded_name: self.encoded_name@,
            session_count: self.session_count,
            last_modified: self.last_modified.deep_view(),
        }
    }
}

/// The catalog row a project directory yields.
pub open spec fn project_view_of(s: ProjectSourceV) -> ProjectV {
    ProjectV {
        encoded_name: s.encoded_name,
        display_path: decode_spec(s.encoded_name),
        short_name: short_name_spec(decode_spec(s.encoded_name)),
        session_count: s.session_count,
        last_modified: s.last_modified,
    }
}

/// The catalog rows of a directory enumeration: directories with no
/// session are excluded, the rest decoded.
pub open spec fn project_views_of(ss: Seq<ProjectSourceV>) -> Seq<ProjectV>
    decreases ss,
{
    if ss.len() == 0 {
        Seq::empty()
    } else if ss[0].session_count > 0 {
        seq![project_view_of(ss[0])] + project_views_of(ss.drop_first())
    } else {
        project_views_of(ss.drop_first())
    }
}

/// Builds one catalog row from a directory's facts.
pub fn build_project(encoded_name: String, session_count: usize, last_modified: Option<String>) -> (r:
    Project)
    ensures
        r.deep_view() == project_view_of(
            ProjectSourceV {
                encoded_name: encoded_name@,
                session_count,
                last_modified: last_modified.deep_view(),
            },
        ),
{
    let display_path = decode_project_path(encoded_name.as_str());
    let short_name = short_name_from_path(display_path.as_str());
    Project { encoded_name, display_path, short_name, session_count, last_modified }
}

/// Turns a directory enumeration into the catalog listing: projects with
/// at least one session, decoded, sorted most recently modified first
/// (projects with no known time last).
pub fn assemble_projects(sources: Vec<ProjectSource>) -> (r: Vec<Project>)
    ensures
        sorted_desc(r@),
        r.deep_view().to_multiset() == project_views_of(sources.deep_view()).to_multiset(),
{
    let ghost ss = sources.deep_view();
    proof {
        assert(ss.skip(0) =~= ss);
    }
    let mut rest = sources;
    let mut built: Vec<Project> = Vec::new();
    let ghost mut i: int = 0;
    while rest.len() > 0
        invariant
            0 <= i <= ss.len(),
            rest.deep_view() =~= ss.skip(i),
            project_views_of(ss) == built.deep_view() + project_views_of(ss.skip(i)),
        decreases rest@.len(),
    {
        proof {
            assert(ss.skip(i)[0] == ss[i]);
            assert(ss.skip(i).drop_first() =~= ss.skip(i + 1));
            assert(rest.deep_view()[0] == rest@[0].deep_view());
        }
        let src = rest.remove(0);
        if src.session_count > 0 {
            let ghost old_built = built.deep_view();
            let ghost pv = project_view_of(src.deep_view());
            let p = build_project(src.encoded_name, src.session_count, src.last_modified);
            built.push(p);
            proof {
                assert(built.deep_view() =~= old_built.push(pv));
                assert(project_views_of(ss.skip(i)) == seq![pv] + project_views_of(ss.skip(i + 1)));
                assert(old_built + (seq![pv] + project_views_of(ss.skip(i + 1))) =~= old_built.push(
                    pv,
                ) + project_views_of(ss.skip(i + 1)));
            }
        } else {
            proof {
                assert(project_views_of(ss.skip(i)) == project_views_of(ss.skip(i + 1)));
            }
        }
        proof {
            i = i + 1;
            assert(rest.deep_view() =~= ss.skip(i));
        }
    }
    proof {
        assert(ss.skip(ss.len() as int) =~= Seq::<ProjectSourceV>::empty());
        assert(built.deep_view() + Seq::<ProjectV>::empty() =~= built.deep_view());
    }
    sort_by_key_desc(built)
}

/// Sorts session entries most recently modified first.
pub fn sort_session_entries(entries: Vec<SessionIndexEntry>) -> (r: Vec<SessionIndexEntry>)
    ensures
        sorted_desc(r@),
        r.deep_view().to_multiset() == entries.deep_view().to_multiset(),
{
    sort_by_key_desc(entries)
}

/// Builds one session entry from a transcript's text and file facts, for
/// the fallback scan when no usable index exists.
pub fn build_session_entry(
    session_id: String,
    full_path: Option<String>,
    file_mtime: Option<u64>,
    created: Option<String>,
    modified: Option<String>,
    content: &str,
) -> (r: SessionIndexEntry)
    ensures
        r.session_id@ == session_id@,
        r.full_path.deep_view() == full_path.deep_view(),
        r.file_mtime == file_mtime,
        r.created.deep_view() == created.deep_view(),
        r.modified.deep_view() == modified.deep_view(),
        r.first_prompt.deep_view() == first_prompt_of(content@),
        r.message_count matches Some(c) && c as nat == (if count_marked(lines_of(content@))
            > u32::MAX as nat {
            u32::MAX as nat
        } else {
            count_marked(lines_of(content@))
        }),
        r.git_branch.deep_view() == (match metadata_of(content@) {
            Some(t) => t.1,
            None => None::<Seq<char>>,
        }),
        r.project_path.deep_view() == (match metadata_of(content@) {
            Some(t) => t.2,
            None => None::<Seq<char>>,
        }),
        r.is_sidechain == Some(false),
{
    let first_prompt = extract_first_prompt(content);
    let message_count = count_messages(content);
    let (git_branch, project_path) = match extract_session_metadata(content) {
        Some(meta) => (meta.1, meta.2),
        None => (None, None),
    };
    SessionIndexEntry {
        session_id,
        full_path,
        file_mtime,
        first_prompt,
        message_count: Some(message_count),
        created,
        modified,
        git_branch,
        project_path,
        is_sidechain: Some(false),
    }
}

} // verus!
