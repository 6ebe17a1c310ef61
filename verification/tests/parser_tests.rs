use claude_conversation_search::models::MessageType;
use claude_conversation_search::parser::{JsonlParser, ParserLimits};

fn fixture_text() -> String {
    let mut t = String::new();
    t.push_str(r#"{"uuid":"u1","sessionId":"aabbccdd-1122-3344-5566-778899001122","type":"user","timestamp":"2025-01-01T10:00:00Z","cwd":"/home/me/proj","message":{"content":"hello rust world"}}"#);
    t.push('\n');
    t.push_str(r#"{"uuid":"u2","sessionId":"aabbccdd-1122-3344-5566-778899001122","type":"assistant","timestamp":"2025-01-01T10:00:01Z","message":{"content":[{"type":"text","text":"sure, here is code"},{"type":"tool_use","name":"Bash","input":{"cmd":"ls"}}]}}"#);
    t.push('\n');
    t.push_str(r#"{"uuid":"u3","sessionId":"aabbccdd-1122-3344-5566-778899001122","type":"file-history-snapshot"}"#);
    t.push('\n');
    t.push_str(r#"{"uuid":"u4","sessionId":"aabbccdd-1122-3344-5566-778899001122","type":"user","timestamp":"2025-01-01T10:00:02Z","message":{"content":"Warmup"}}"#);
    t.push('\n');
    t
}

const FIXTURE_PATH: &str =
    "/home/me/corpus/projects/-home-me-proj/aabbccdd-1122-3344-5566-778899001122.jsonl";

fn parse_fixture() -> Vec<claude_conversation_search::models::ConversationEntry> {
    let parser = JsonlParser::new();
    let limits = ParserLimits::default();
    parser.parse_text(&fixture_text(), FIXTURE_PATH, &limits)
}

#[test]
fn scenario_parse_fixture() {
    let entries = parse_fixture();
    // u3 is dropped by the type filter; u1, u2 and u4 are kept
    // (u4's content "Warmup" is non-empty, it is only non-displayable
    // at query time).
    assert_eq!(entries.len(), 3);
    assert_eq!(entries[0].uuid, "u1");
    assert_eq!(entries[1].uuid, "u2");
    assert_eq!(entries[2].uuid, "u4");
    assert_eq!(entries[0].sequence_num, 0);
    assert_eq!(entries[1].sequence_num, 1);
    assert_eq!(entries[2].sequence_num, 2);
    assert!(matches!(entries[0].message_type, MessageType::User));
    assert!(matches!(entries[1].message_type, MessageType::Assistant));
}

#[test]
fn scenario_metadata_fields() {
    let entries = parse_fixture();
    assert!(entries[0].technologies.contains(&"rust".to_string()));
    assert!(entries[1].tools_mentioned.contains(&"Bash".to_string()));
    assert!(entries[1].content.contains("[Bash] {\"cmd\":\"ls\"}"));
    assert_eq!(entries[0].content, "hello rust world");
    assert_eq!(entries[1].content, "sure, here is code\n[Bash] {\"cmd\":\"ls\"}");
}

#[test]
fn scenario_project_naming() {
    let entries = parse_fixture();
    // cwd is present, so the project name comes from its deepest
    // non-trivial component.
    assert_eq!(entries[0].project, "proj");
    assert_eq!(entries[0].cwd.as_deref(), Some("/home/me/proj"));
}

#[test]
fn parse_is_deterministic() {
    let parser = JsonlParser::new();
    let limits = ParserLimits::default();
    let a = parser.parse_text(&fixture_text(), FIXTURE_PATH, &limits);
    let b = parser.parse_text(&fixture_text(), FIXTURE_PATH, &limits);
    assert_eq!(a.len(), b.len());
    for (x, y) in a.iter().zip(b.iter()) {
        assert_eq!(x.uuid, y.uuid);
        assert_eq!(x.content, y.content);
        assert_eq!(x.sequence_num, y.sequence_num);
        assert_eq!(x.timestamp_ms, y.timestamp_ms);
    }
}

#[test]
fn bom_prefix_is_ignored() {
    let parser = JsonlParser::new();
    let limits = ParserLimits::default();
    let plain = parser.parse_text(&fixture_text(), FIXTURE_PATH, &limits);
    let mut bom = String::from("\u{feff}");
    bom.push_str(&fixture_text());
    let with_bom = parser.parse_text(&bom, FIXTURE_PATH, &limits);
    assert_eq!(plain.len(), with_bom.len());
    for (x, y) in plain.iter().zip(with_bom.iter()) {
        assert_eq!(x.uuid, y.uuid);
        assert_eq!(x.content, y.content);
    }
}

#[test]
fn empty_file_yields_no_records() {
    let parser = JsonlParser::new();
    let limits = ParserLimits::default();
    assert_eq!(parser.parse_text("", "/tmp/x.jsonl", &limits).len(), 0);
    assert_eq!(parser.parse_text("\n \n\t\n", "/tmp/x.jsonl", &limits).len(), 0);
}

#[test]
fn malformed_lines_are_skipped() {
    let parser = JsonlParser::new();
    let limits = ParserLimits::default();
    let text = "not json at all\n{\"uuid\":\"a\"}\n{}\n";
    assert_eq!(parser.parse_text(text, "/tmp/x.jsonl", &limits).len(), 0);
}

#[test]
fn missing_required_fields_drop_record() {
    let parser = JsonlParser::new();
    let limits = ParserLimits::default();
    // No timestamp.
    let t1 = r#"{"uuid":"a","sessionId":"s","type":"user","message":{"content":"hi"}}"#;
    assert_eq!(parser.parse_text(t1, "/tmp/x.jsonl", &limits).len(), 0);
    // No uuid.
    let t2 = r#"{"sessionId":"s","type":"user","timestamp":"2025-01-01T00:00:00Z","message":{"content":"hi"}}"#;
    assert_eq!(parser.parse_text(t2, "/tmp/x.jsonl", &limits).len(), 0);
    // Bad timestamp.
    let t3 = r#"{"uuid":"a","sessionId":"s","type":"user","timestamp":"yesterday","message":{"content":"hi"}}"#;
    assert_eq!(parser.parse_text(t3, "/tmp/x.jsonl", &limits).len(), 0);
}

#[test]
fn thinking_and_tool_result_blocks() {
    let parser = JsonlParser::new();
    let limits = ParserLimits::default();
    let line = r#"{"uuid":"a","sessionId":"s","type":"assistant","timestamp":"2025-01-01T00:00:00Z","message":{"content":[{"type":"thinking","thinking":"pondering"},{"type":"tool_result","content":"it worked"},{"type":"tool_result","content":"oops","is_error":true},{"type":"mystery"}]}}"#;
    let entries = parser.parse_text(line, "/tmp/x.jsonl", &limits);
    assert_eq!(entries.len(), 1);
    let content = &entries[0].content;
    assert!(content.contains("[thinking] pondering"));
    assert!(content.contains("[result] it worked"));
    assert!(content.contains("[error] oops"));
    assert!(entries[0].has_error);
}

#[test]
fn tool_input_truncation() {
    let parser = JsonlParser::new();
    let limits = ParserLimits { tool_input_max_chars: 10, tool_result_max_chars: 10 };
    let line = r#"{"uuid":"a","sessionId":"s","type":"assistant","timestamp":"2025-01-01T00:00:00Z","message":{"content":[{"type":"tool_use","name":"Bash","input":{"cmd":"a very long command line"}}]}}"#;
    let entries = parser.parse_text(line, "/tmp/x.jsonl", &limits);
    assert_eq!(entries.len(), 1);
    let content = &entries[0].content;
    assert!(content.starts_with("[Bash] "));
    assert!(content.ends_with('\u{2026}'));
    // 9 characters of input plus the ellipsis.
    assert_eq!(content.chars().count(), "[Bash] ".chars().count() + 10);
}

#[test]
fn summary_records_use_summary_text() {
    let parser = JsonlParser::new();
    let limits = ParserLimits::default();
    let line = r#"{"uuid":"a","sessionId":"s","type":"summary","timestamp":"2025-01-01T00:00:00Z","summary":"we built a thing"}"#;
    let entries = parser.parse_text(line, "/tmp/x.jsonl", &limits);
    assert_eq!(entries.len(), 1);
    assert_eq!(entries[0].content, "we built a thing");
    assert!(matches!(entries[0].message_type, MessageType::Summary));
}

#[test]
fn agent_file_heuristic() {
    let parser = JsonlParser::new();
    let limits = ParserLimits::default();
    let line = r#"{"uuid":"a","sessionId":"s","type":"user","timestamp":"2025-01-01T00:00:00Z","message":{"content":"hi"}}"#;
    let entries = parser.parse_text(line, "/corpus/projects/-p/agent-ab12.jsonl", &limits);
    assert_eq!(entries[0].agent_id.as_deref(), Some("ab12"));
    // An explicit agentId wins over the file-name hint.
    let line2 = r#"{"uuid":"a","sessionId":"s","type":"user","timestamp":"2025-01-01T00:00:00Z","agentId":"real","message":{"content":"hi"}}"#;
    let entries2 = parser.parse_text(line2, "/corpus/projects/-p/agent-ab12.jsonl", &limits);
    assert_eq!(entries2[0].agent_id.as_deref(), Some("real"));
}

#[test]
fn sidechain_flag_parsed() {
    let parser = JsonlParser::new();
    let limits = ParserLimits::default();
    let line = r#"{"uuid":"a","sessionId":"s","type":"user","timestamp":"2025-01-01T00:00:00Z","isSidechain":true,"message":{"content":"hi"}}"#;
    let entries = parser.parse_text(line, "/tmp/x.jsonl", &limits);
    assert!(entries[0].is_sidechain);
}

#[test]
fn project_name_skips_trivial_components() {
    let parser = JsonlParser::new();
    assert_eq!(parser.extract_project_name_from_path("/home/me/proj/src"), "proj");
    assert_eq!(parser.extract_project_name_from_path("/home/me/proj/.git"), "proj");
    assert_eq!(parser.extract_project_name_from_path("/a"), "a");
}
