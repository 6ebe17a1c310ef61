use claude_conversation_search::dates::parse_date;
use claude_conversation_search::mcp::{center_bounds, dedup_by_session, page_bounds};
use claude_conversation_search::models::{MessageType, SearchResult};
use claude_conversation_search::path_utils::{home_to_tilde, project_dir_name, session_jsonl_path,
    short_uuid};
use claude_conversation_search::search::{assemble_context, generate_snippet,
    SearchResultWithContext};
use claude_conversation_search::terminal::{file_hyperlink, hyperlink};
use claude_conversation_search::utils::truncate_content;

#[test]
fn truncate_respects_char_budget() {
    assert_eq!(truncate_content("hello", 10, false), "hello");
    assert_eq!(truncate_content("hello world", 6, false), "hello\u{2026}");
    assert_eq!(truncate_content("a   b\n\nc", 100, true), "a b c");
    // Multi-byte characters count as one character each.
    assert_eq!(truncate_content("ééééé", 3, false), "éé\u{2026}");
}

#[test]
fn short_uuid_takes_eight_chars() {
    assert_eq!(short_uuid("aabbccdd-1122"), "aabbccdd");
    assert_eq!(short_uuid("abc"), "abc");
}

#[test]
fn project_dir_name_replaces_separators() {
    assert_eq!(project_dir_name("/home/me/my.proj"), "-home-me-my-proj");
}

#[test]
fn session_path_layout() {
    assert_eq!(
        session_jsonl_path("/home/me/corpus", "/home/me/proj", "abc-def"),
        "/home/me/corpus/projects/-home-me-proj/abc-def.jsonl"
    );
}

#[test]
fn home_to_tilde_display() {
    assert_eq!(home_to_tilde("/home/me/x", "/home/me"), "~/x");
    assert_eq!(home_to_tilde("unknown", "/home/me"), "unknown");
    assert_eq!(home_to_tilde("/etc", ""), "/etc");
    // Only the prefix is replaced, not later occurrences.
    assert_eq!(home_to_tilde("/h/h", "/h"), "~/h");
    assert_eq!(home_to_tilde("/etc/h", "/h"), "/etc/h");
}

#[test]
fn hyperlinks_wrap_or_pass_through() {
    assert_eq!(hyperlink("https://x", "text", false), "text");
    assert_eq!(
        hyperlink("https://x", "text", true),
        "\u{1b}]8;;https://x\u{1b}\\text\u{1b}]8;;\u{1b}\\"
    );
    assert_eq!(
        file_hyperlink("/a/b", "b", true),
        "\u{1b}]8;;file:///a/b\u{1b}\\b\u{1b}]8;;\u{1b}\\"
    );
}

#[test]
fn parse_date_forms() {
    // Start of day, UTC.
    assert_eq!(parse_date("2025-01-01"), Some(1735689600000));
    // Full RFC 3339.
    assert_eq!(parse_date("2025-01-01T10:00:00Z"), Some(1735725600000));
    // Leap day.
    assert_eq!(parse_date("2024-02-29"), Some(1709164800000));
    assert_eq!(parse_date("2025-02-29"), None);
    assert_eq!(parse_date("not a date"), None);
}

#[test]
fn snippet_short_content_verbatim() {
    assert_eq!(generate_snippet("just a few words", "few"), "just a few words");
}

#[test]
fn snippet_long_content_windows() {
    let mut words: Vec<String> = (0..50).map(|i| format!("w{}", i)).collect();
    words[40] = "needle".to_string();
    let content = words.join(" ");
    let snip = generate_snippet(&content, "needle");
    assert!(snip.contains("needle"));
    // The leftmost window holding the needle starts at word 11 and
    // ends before the last word, so both edges are marked.
    assert!(snip.starts_with('\u{2026}'));
    assert!(snip.ends_with('\u{2026}'));
    assert!(snip.split_whitespace().count() <= 31);
}

fn result_with(uuid: &str, session: &str, project: &str, seq: usize) -> SearchResult {
    SearchResult {
        uuid: uuid.to_string(),
        parent_uuid: None,
        content: format!("content of {}", uuid),
        project: project.to_string(),
        project_path: format!("/home/me/{}", project),
        session_id: session.to_string(),
        timestamp_ms: 1000 + seq as i64,
        message_type: MessageType::User,
        snippet: String::new(),
        technologies: Vec::new(),
        code_languages: Vec::new(),
        tools_mentioned: Vec::new(),
        has_code: false,
        has_error: false,
        interaction_count: 0,
        sequence_num: seq,
        is_sidechain: false,
        agent_id: None,
    }
}

fn row_for(m: SearchResult) -> SearchResultWithContext {
    SearchResultWithContext {
        context_messages: vec![m.clone()],
        matched_message: m,
        match_index: 0,
        total_session_messages: 1,
    }
}

#[test]
fn dedup_takes_first_per_session() {
    let rows = vec![
        row_for(result_with("a1", "s1", "p", 0)),
        row_for(result_with("a2", "s1", "p", 1)),
        row_for(result_with("b1", "s2", "p", 0)),
        row_for(result_with("c1", "s3", "p", 0)),
    ];
    let out = dedup_by_session(rows, &Vec::new(), &Vec::new(), &None, 2);
    assert_eq!(out.len(), 2);
    assert_eq!(out[0].matched_message.uuid, "a1");
    assert_eq!(out[1].matched_message.uuid, "b1");
}

#[test]
fn dedup_applies_exclusions() {
    let rows = vec![
        row_for(result_with("a1", "s1", "noisy", 0)),
        row_for(result_with("b1", "s2", "good", 0)),
        row_for(result_with("c1", "s3", "temp-stuff", 0)),
        row_for(result_with("d1", "s4", "good2", 0)),
    ];
    let exclude = vec!["noisy".to_string()];
    let patterns = vec!["^temp".to_string()];
    let current = Some("s4".to_string());
    let out = dedup_by_session(rows, &exclude, &patterns, &current, 10);
    assert_eq!(out.len(), 1);
    assert_eq!(out[0].matched_message.uuid, "b1");
}

#[test]
fn context_clipped_at_session_edges() {
    let session = vec![
        result_with("m0", "s", "p", 0),
        result_with("m1", "s", "p", 1),
        result_with("m2", "s", "p", 2),
    ];
    // Match at the start: window never wraps to the end.
    let row = assemble_context(&session[0], &session, 2, 1);
    let uuids: Vec<&str> = row.context_messages.iter().map(|m| m.uuid.as_str()).collect();
    assert_eq!(uuids, vec!["m0", "m1"]);
    assert_eq!(row.match_index, 0);
    // Match at the end: clipped on the right.
    let row = assemble_context(&session[2], &session, 1, 3);
    let uuids: Vec<&str> = row.context_messages.iter().map(|m| m.uuid.as_str()).collect();
    assert_eq!(uuids, vec!["m1", "m2"]);
    assert_eq!(row.match_index, 1);
    assert_eq!(row.total_session_messages, 3);
}

#[test]
fn context_filters_non_displayable() {
    let mut session = vec![
        result_with("m0", "s", "p", 0),
        result_with("m1", "s", "p", 1),
        result_with("m2", "s", "p", 2),
    ];
    session[1].content = "Warmup".to_string();
    let row = assemble_context(&session[2], &session, 2, 0);
    let uuids: Vec<&str> = row.context_messages.iter().map(|m| m.uuid.as_str()).collect();
    assert_eq!(uuids, vec!["m0", "m2"]);
    assert_eq!(row.match_index, 1);
}

#[test]
fn config_defaults() {
    let c = claude_conversation_search::config::Config::default();
    assert!(c.index.auto_index_on_startup);
    assert_eq!(c.index.writer_heap_mb, 50);
    assert_eq!(c.get_writer_heap_size(), 50 * 1024 * 1024);
    assert!(c.locking.enabled);
    assert_eq!(c.limits.per_file_chars, 150_000);
    assert_eq!(c.get_lock_file_path("/cache"), "/cache/index.lock");
}

#[test]
fn paging_bounds_clip() {
    assert_eq!(page_bounds(10, 0, 50), (0, 10));
    assert_eq!(page_bounds(10, 4, 3), (4, 7));
    assert_eq!(page_bounds(10, 99, 3), (10, 10));
    assert_eq!(center_bounds(0, 2, 1, 3), (0, 2));
    assert_eq!(center_bounds(2, 1, 3, 3), (1, 3));
    assert_eq!(center_bounds(5, 2, 2, 20), (3, 8));
}
