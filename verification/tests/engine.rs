use transcript_engine::catalog::{
    assemble_projects, build_session_entry, parse_sessions_index, sort_session_entries,
    ProjectSource,
};
use transcript_engine::path_codec::{
    decode_project_path, get_projects_dir, get_stats_cache_path, normalize_path,
    projects_dir_under, short_name_from_path, stats_cache_under,
};
use transcript_engine::record::{parse_line, DisplayContentBlock};
use transcript_engine::search::{aggregate_results, search_file, SearchResult};
use transcript_engine::timefmt::timestamp_rfc3339;
use transcript_engine::transcript::{
    count_messages, extract_first_prompt, extract_session_metadata, paginate_messages,
    parse_all_messages,
};
use transcript_engine::watch::{event_is_relevant, is_watch_path, path_ext};

fn sample_session() -> String {
    let l1 = r#"{"type":"user","message":{"role":"user","content":"hello world"}}"#;
    let l2 = r#"{"type":"assistant","message":{"role":"assistant","content":[{"type":"text","text":"hi there"}]}}"#;
    format!("{}\n{}", l1, l2)
}

#[test]
fn decode_posix_token() {
    assert_eq!(decode_project_path("-Users-alice-proj"), "/Users/alice/proj");
    assert_eq!(short_name_from_path("/Users/alice/proj"), "proj");
}

#[test]
fn decode_drive_token() {
    assert_eq!(decode_project_path("C--Users-zed-Desk"), "C:/Users/zed/Desk");
}

#[test]
fn short_name_edges() {
    assert_eq!(short_name_from_path("proj"), "proj");
    assert_eq!(short_name_from_path("/a/b/"), "b");
    assert_eq!(short_name_from_path(""), "");
    assert_eq!(short_name_from_path("///"), "");
    assert_eq!(short_name_from_path("C:\\a\\b"), "b");
}

#[test]
fn normalize_path_backslashes() {
    assert_eq!(normalize_path("a\\b/c"), "a/b/c");
}

#[test]
fn well_known_paths() {
    assert_eq!(projects_dir_under("/home/u"), "/home/u/.transcripts/projects");
    assert_eq!(stats_cache_under("/home/u"), "/home/u/.transcripts/stats-cache.json");
    // These depend on the environment; they must simply not panic.
    let _pd = get_projects_dir();
    let _sc = get_stats_cache_path();
}

#[test]
fn paginate_two_messages() {
    let content = sample_session();
    let p0 = paginate_messages(&content, 0, 1);
    assert_eq!(p0.total, 2);
    assert_eq!(p0.messages.len(), 1);
    assert_eq!(p0.messages[0].role, "user");
    assert!(p0.has_more);
    let p1 = paginate_messages(&content, 1, 1);
    assert_eq!(p1.total, 2);
    assert_eq!(p1.messages[0].role, "assistant");
    assert!(!p1.has_more);
    let p2 = paginate_messages(&content, 2, 1);
    assert_eq!(p2.total, 2);
    assert!(p2.messages.is_empty());
    assert!(!p2.has_more);
}

#[test]
fn paginate_total_invariant_under_page_choice() {
    let content = sample_session();
    for page in 0..4usize {
        for size in 0..4usize {
            assert_eq!(paginate_messages(&content, page, size).total, 2);
        }
    }
}

#[test]
fn paginate_pages_reconstruct() {
    let mut lines = Vec::new();
    for i in 0..7 {
        lines.push(format!(
            r#"{{"type":"user","message":{{"role":"user","content":"m{}"}}}}"#,
            i
        ));
    }
    let content = lines.join("\n");
    let mut collected = Vec::new();
    let mut page = 0usize;
    loop {
        let p = paginate_messages(&content, page, 3);
        assert!(p.messages.len() <= 3);
        for m in &p.messages {
            match &m.content[0] {
                DisplayContentBlock::Text { text } => collected.push(text.clone()),
                _ => panic!("expected a text block"),
            }
        }
        if !p.has_more {
            break;
        }
        page += 1;
    }
    let expected: Vec<String> = (0..7).map(|i| format!("m{}", i)).collect();
    assert_eq!(collected, expected);
}

#[test]
fn malformed_lines_are_skipped() {
    let content = "not json\n{\"type\":\"user\",\"message\":{\"role\":\"user\",\"content\":\"ok\"}}\n{broken";
    let msgs = parse_all_messages(content);
    assert_eq!(msgs.len(), 1);
    assert_eq!(msgs[0].role, "user");
}

#[test]
fn summary_records_do_not_display() {
    let content = "{\"type\":\"summary\",\"summary\":\"s\"}\n{\"type\":\"user\",\"message\":{\"role\":\"user\",\"content\":\"hi\"}}";
    assert_eq!(parse_all_messages(content).len(), 1);
}

#[test]
fn tool_result_null_content_displays_empty_not_error() {
    let content = r#"{"type":"user","message":{"role":"user","content":[{"type":"tool_result","tool_use_id":"t1","content":null}]}}"#;
    let msgs = parse_all_messages(content);
    assert_eq!(msgs.len(), 1);
    match &msgs[0].content[0] {
        DisplayContentBlock::ToolResult { tool_use_id, content, is_error } => {
            assert_eq!(tool_use_id, "t1");
            assert_eq!(content, "");
            assert_eq!(*is_error, false);
        }
        _ => panic!("expected a tool result block"),
    }
}

#[test]
fn tool_result_array_content_flattens_text_parts() {
    let content = r#"{"type":"user","message":{"role":"user","content":[{"type":"tool_result","tool_use_id":"t","content":[{"type":"text","text":"one "},{"type":"image"},{"type":"text","text":"two"}]}]}}"#;
    let msgs = parse_all_messages(content);
    match &msgs[0].content[0] {
        DisplayContentBlock::ToolResult { content, .. } => assert_eq!(content, "one two"),
        _ => panic!("expected a tool result block"),
    }
}

#[test]
fn tool_result_non_string_content_renders() {
    let content = r#"{"type":"user","message":{"role":"user","content":[{"type":"tool_result","tool_use_id":"t","content":{"ok":true},"is_error":true}]}}"#;
    let msgs = parse_all_messages(content);
    match &msgs[0].content[0] {
        DisplayContentBlock::ToolResult { content, is_error, .. } => {
            assert_eq!(content, "{\"ok\":true}");
            assert!(*is_error);
        }
        _ => panic!("expected a tool result block"),
    }
}

#[test]
fn tool_use_input_renders_canonically() {
    let content = r#"{"type":"assistant","message":{"role":"assistant","content":[{"type":"tool_use","id":"i","name":"run","input":{"cmd":"ls"}}]}}"#;
    let msgs = parse_all_messages(content);
    match &msgs[0].content[0] {
        DisplayContentBlock::ToolUse { id, name, input } => {
            assert_eq!(id, "i");
            assert_eq!(name, "run");
            assert_eq!(input, "{\"cmd\":\"ls\"}");
        }
        _ => panic!("expected a tool use block"),
    }
}

#[test]
fn unknown_blocks_are_dropped_silently() {
    let content = r#"{"type":"user","message":{"role":"user","content":[{"type":"mystery","x":1},{"type":"text","text":"kept"}]}}"#;
    let msgs = parse_all_messages(content);
    assert_eq!(msgs[0].content.len(), 1);
    match &msgs[0].content[0] {
        DisplayContentBlock::Text { text } => assert_eq!(text, "kept"),
        _ => panic!("expected the text block"),
    }
}

#[test]
fn thinking_blocks_display() {
    let content = r#"{"type":"assistant","message":{"role":"assistant","content":[{"type":"thinking","thinking":"hmm"}]}}"#;
    let msgs = parse_all_messages(content);
    match &msgs[0].content[0] {
        DisplayContentBlock::Thinking { thinking } => assert_eq!(thinking, "hmm"),
        _ => panic!("expected the thinking block"),
    }
}

#[test]
fn parse_line_reads_record_fields() {
    let line = r#"{"type":"user","uuid":"u1","parentUuid":null,"sessionId":"s1","timestamp":"2024-01-01T00:00:00Z","cwd":"/w","version":"1.0","gitBranch":"main","isSidechain":true,"message":{"role":"user","content":"x"}}"#;
    let rec = parse_line(line).expect("record should parse");
    assert_eq!(rec.record_type, "user");
    assert_eq!(rec.uuid.as_deref(), Some("u1"));
    assert_eq!(rec.parent_uuid, None);
    assert_eq!(rec.session_id.as_deref(), Some("s1"));
    assert_eq!(rec.cwd.as_deref(), Some("/w"));
    assert_eq!(rec.version.as_deref(), Some("1.0"));
    assert_eq!(rec.git_branch.as_deref(), Some("main"));
    assert_eq!(rec.is_sidechain, Some(true));
    assert!(parse_line("{\"uuid\":\"no type\"}").is_none());
    assert!(parse_line("").is_none());
}

#[test]
fn first_prompt_and_truncation() {
    let content = sample_session();
    assert_eq!(extract_first_prompt(&content).as_deref(), Some("hello world"));

    let long: String = "a".repeat(150);
    let line = format!(
        r#"{{"type":"user","message":{{"role":"user","content":"{}"}}}}"#,
        long
    );
    let got = extract_first_prompt(&line).expect("prompt expected");
    assert_eq!(got.len(), 103);
    assert!(got.starts_with(&"a".repeat(100)));
    assert!(got.ends_with("..."));

    assert_eq!(extract_first_prompt("{\"type\":\"summary\"}"), None);
}

#[test]
fn metadata_comes_from_first_stamped_record() {
    let content = "{\"type\":\"summary\"}\n{\"type\":\"user\",\"cwd\":\"/proj\",\"gitBranch\":\"dev\",\"version\":\"2.1\"}";
    let (version, git_branch, project_path) =
        extract_session_metadata(content).expect("metadata expected");
    assert_eq!(version, "2.1");
    assert_eq!(git_branch.as_deref(), Some("dev"));
    assert_eq!(project_path.as_deref(), Some("/proj"));
    assert_eq!(extract_session_metadata("{\"type\":\"summary\"}"), None);
}

#[test]
fn count_messages_counts_marker_lines() {
    let content = sample_session();
    assert_eq!(count_messages(&content), 2);
    assert_eq!(count_messages("{\"type\":\"summary\"}"), 0);
    assert_eq!(count_messages(""), 0);
}

#[test]
fn search_finds_hello() {
    let content = sample_session();
    let results = search_file("hello", "-Users-alice-proj", "proj", "sess1", &content);
    assert_eq!(results.len(), 1);
    let r = &results[0];
    assert_eq!(r.role, "user");
    assert_eq!(r.matched_text, "hello world");
    assert_eq!(r.encoded_name, "-Users-alice-proj");
    assert_eq!(r.project_name, "proj");
    assert_eq!(r.session_id, "sess1");
    assert_eq!(r.first_prompt.as_deref(), Some("hello world"));
}

#[test]
fn search_is_case_insensitive_both_ways() {
    let content = sample_session();
    assert_eq!(search_file("HELLO", "e", "p", "s", &content).len(), 1);
    let upper = r#"{"type":"user","message":{"role":"user","content":"SHOUTING TEXT"}}"#;
    assert_eq!(search_file("shouting", "e", "p", "s", upper).len(), 1);
}

#[test]
fn search_misses_cleanly() {
    let content = sample_session();
    assert!(search_file("absent", "e", "p", "s", &content).is_empty());
}

#[test]
fn search_caps_results_per_file_at_five() {
    let mut lines = Vec::new();
    for i in 0..10 {
        lines.push(format!(
            r#"{{"type":"user","message":{{"role":"user","content":"needle number {}"}}}}"#,
            i
        ));
    }
    let content = lines.join("\n");
    let results = search_file("needle", "e", "p", "s", &content);
    assert_eq!(results.len(), 5);
}

#[test]
fn search_window_is_bounded() {
    let long = format!("{}needle{}", "x".repeat(80), "y".repeat(80));
    let line = format!(
        r#"{{"type":"user","message":{{"role":"user","content":"{}"}}}}"#,
        long
    );
    let results = search_file("needle", "e", "p", "s", &line);
    assert_eq!(results.len(), 1);
    // 50 before + 6 match + 50 after.
    assert_eq!(results[0].matched_text.len(), 106);
    assert!(results[0].matched_text.contains("needle"));
}

fn triples(rs: &[SearchResult]) -> Vec<(String, String, String)> {
    let mut t: Vec<(String, String, String)> = rs
        .iter()
        .map(|r| (r.encoded_name.clone(), r.session_id.clone(), r.matched_text.clone()))
        .collect();
    t.sort();
    t
}

#[test]
fn search_multiset_is_order_independent() {
    let c1 = sample_session();
    let c2 = r#"{"type":"user","message":{"role":"user","content":"hello again"}}"#.to_string();
    let f1 = search_file("hello", "e1", "p1", "s1", &c1);
    let f2 = search_file("hello", "e2", "p2", "s2", &c2);
    let one_way = aggregate_results(vec![f1.clone(), f2.clone()], 100);
    let other_way = aggregate_results(vec![f2, f1], 100);
    assert_eq!(triples(&one_way), triples(&other_way));
    // Re-running against unchanged input gives the same multiset.
    let rerun = search_file("hello", "e1", "p1", "s1", &c1);
    let again = aggregate_results(
        vec![rerun, search_file("hello", "e2", "p2", "s2", &c2)],
        100,
    );
    assert_eq!(triples(&one_way), triples(&again));
}

#[test]
fn aggregate_truncates_to_max_results() {
    let content = sample_session();
    let f1 = search_file("h", "e1", "p1", "s1", &content);
    let f2 = search_file("h", "e2", "p2", "s2", &content);
    let all = aggregate_results(vec![f1.clone(), f2.clone()], 100);
    let capped = aggregate_results(vec![f1, f2], 1);
    assert!(all.len() > 1);
    assert_eq!(capped.len(), 1);
    assert_eq!(aggregate_results(vec![], 10).len(), 0);
}

#[test]
fn sessions_index_parses_and_sorts() {
    let idx = r#"{"version":1,"originalPath":"/Users/alice/proj","entries":[
        {"sessionId":"old","modified":"2024-01-01T00:00:00Z","fileMtime":1000,"messageCount":3},
        {"sessionId":"new","modified":"2025-01-01T00:00:00Z"},
        {"sessionId":"undated"}
    ]}"#;
    let parsed = parse_sessions_index(idx).expect("index should parse");
    assert_eq!(parsed.version, Some(1));
    assert_eq!(parsed.original_path.as_deref(), Some("/Users/alice/proj"));
    assert_eq!(parsed.entries.len(), 3);
    assert_eq!(parsed.entries[0].file_mtime, Some(1000));
    assert_eq!(parsed.entries[0].message_count, Some(3));
    assert_eq!(parsed.entries[2].file_mtime, None);
    let sorted = sort_session_entries(parsed.entries);
    assert_eq!(sorted[0].session_id, "new");
    assert_eq!(sorted[1].session_id, "old");
    assert_eq!(sorted[2].session_id, "undated");
}

#[test]
fn sessions_index_rejects_malformed_documents() {
    assert!(parse_sessions_index("[]").is_none());
    assert!(parse_sessions_index("{\"entries\":7}").is_none());
    assert!(parse_sessions_index("{\"version\":1}").is_none());
    assert!(parse_sessions_index("{\"entries\":[{\"modified\":\"x\"}]}").is_none());
    // A message count beyond u32 range is malformed.
    assert!(
        parse_sessions_index("{\"entries\":[{\"sessionId\":\"a\",\"messageCount\":5000000000}]}")
            .is_none()
    );
    let empty = parse_sessions_index("{\"entries\":[]}").expect("empty index parses");
    assert!(empty.entries.is_empty());
}

#[test]
fn build_session_entry_fills_derived_fields() {
    let content = sample_session();
    let e = build_session_entry(
        "sess1".to_string(),
        Some("/p/sess1.jsonl".to_string()),
        Some(123),
        None,
        Some("2024-05-05T00:00:00+00:00".to_string()),
        &content,
    );
    assert_eq!(e.session_id, "sess1");
    assert_eq!(e.full_path.as_deref(), Some("/p/sess1.jsonl"));
    assert_eq!(e.file_mtime, Some(123));
    assert_eq!(e.first_prompt.as_deref(), Some("hello world"));
    assert_eq!(e.message_count, Some(2));
    assert_eq!(e.is_sidechain, Some(false));
}

#[test]
fn assemble_projects_filters_and_sorts() {
    let sources = vec![
        ProjectSource {
            encoded_name: "-old".to_string(),
            session_count: 2,
            last_modified: Some("2024-01-01T00:00:00+00:00".to_string()),
        },
        ProjectSource {
            encoded_name: "-empty".to_string(),
            session_count: 0,
            last_modified: Some("2026-01-01T00:00:00+00:00".to_string()),
        },
        ProjectSource {
            encoded_name: "-undated".to_string(),
            session_count: 1,
            last_modified: None,
        },
        ProjectSource {
            encoded_name: "-new".to_string(),
            session_count: 5,
            last_modified: Some("2025-01-01T00:00:00+00:00".to_string()),
        },
    ];
    let projects = assemble_projects(sources);
    assert_eq!(projects.len(), 3);
    assert_eq!(projects[0].encoded_name, "-new");
    assert_eq!(projects[0].display_path, "/new");
    assert_eq!(projects[0].short_name, "new");
    assert_eq!(projects[0].session_count, 5);
    assert_eq!(projects[1].encoded_name, "-old");
    assert_eq!(projects[2].encoded_name, "-undated");
}

#[test]
fn timestamp_formats_as_rfc3339() {
    assert_eq!(timestamp_rfc3339(0), "1970-01-01T00:00:00+00:00");
    assert_eq!(timestamp_rfc3339(1700000000), "2023-11-14T22:13:20+00:00");
}

#[test]
fn watch_filter_matches_transcript_files() {
    assert_eq!(path_ext("/a/b/c.jsonl").as_deref(), Some("jsonl"));
    assert_eq!(path_ext("/a/b/.hidden"), None);
    assert_eq!(path_ext("/a/b/noext"), None);
    assert_eq!(path_ext("a.tar.gz").as_deref(), Some("gz"));
    assert!(is_watch_path("/c/x.json"));
    assert!(!is_watch_path("/c/x.txt"));
    assert!(event_is_relevant(&vec![
        "/c/x.txt".to_string(),
        "/c/y.jsonl".to_string()
    ]));
    assert!(!event_is_relevant(&vec!["/c/x.txt".to_string()]));
    assert!(!event_is_relevant(&vec![]));
}

#[test]
fn wrongly_shaped_fields_make_the_record_malformed() {
    // A non-string content that is also not an array fails the record.
    assert!(parse_all_messages(r#"{"type":"user","message":{"role":"user","content":7}}"#).is_empty());
    // A non-string type discriminator fails the record.
    assert!(parse_all_messages(r#"{"type":7,"message":{"role":"user","content":"x"}}"#).is_empty());
    // A wrongly typed optional field fails the record.
    assert!(parse_line(r#"{"type":"user","uuid":7}"#).is_none());
    assert!(parse_line(r#"{"type":"user","isSidechain":"yes"}"#).is_none());
    // A content array with a malformed known block fails the record.
    assert!(parse_all_messages(
        r#"{"type":"user","message":{"role":"user","content":[{"type":"text"}]}}"#
    )
    .is_empty());
    // A null message is simply a record with no message.
    let rec = parse_line(r#"{"type":"user","message":null}"#).expect("record parses");
    assert!(rec.message.is_none());
}
