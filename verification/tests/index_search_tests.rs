use claude_conversation_search::analysis::{sort_counts_desc, tag_frequencies, TagField};
use claude_conversation_search::indexer::SearchIndexer;
use claude_conversation_search::models::{SearchQuery, SortOrder};
use claude_conversation_search::parser::{JsonlParser, ParserLimits};
use claude_conversation_search::search::SearchEngine;

const HEAP: usize = 50_000_000;

const SESSION: &str = "aabbccdd-1122-3344-5566-778899001122";

fn fixture_text() -> String {
    let mut t = String::new();
    t.push_str(r#"{"uuid":"u1","sessionId":"aabbccdd-1122-3344-5566-778899001122","type":"user","timestamp":"2025-01-01T10:00:00Z","cwd":"/home/me/proj","message":{"content":"hello rust world"}}"#);
    t.push('\n');
    t.push_str(r#"{"uuid":"u2","sessionId":"aabbccdd-1122-3344-5566-778899001122","type":"assistant","timestamp":"2025-01-01T10:00:01Z","message":{"content":[{"type":"text","text":"sure, here is code"},{"type":"tool_use","name":"Bash","input":{"cmd":"ls"}}]}}"#);
    t.push('\n');
    t.push_str(r#"{"uuid":"u3","sessionId":"aabbccdd-1122-3344-5566-778899001122","type":"file-history-snapshot"}"#);
    t.push('\n');
    t.push_str(r#"{"uuid":"u4","sessionId":"aabbccdd-1122-3344-5566-778899001122","type":"user","timestamp":"2025-01-01T10:00:02Z","message":{"content":"Warmup"}}"#);
    t.push('\n');
    t
}

fn indexed_engine() -> (SearchIndexer, SearchEngine) {
    let parser = JsonlParser::new();
    let limits = ParserLimits::default();
    let entries = parser.parse_text(
        &fixture_text(),
        "/home/me/corpus/projects/-home-me-proj/aabbccdd-1122-3344-5566-778899001122.jsonl",
        &limits,
    );
    let mut indexer = SearchIndexer::new_in_ram(HEAP).expect("create index");
    indexer.index_conversations(entries).expect("index");
    let engine = SearchEngine::for_index(indexer.index_handle(), Vec::new()).expect("engine");
    (indexer, engine)
}

fn query(text: &str, limit: usize) -> SearchQuery {
    SearchQuery {
        text: text.to_string(),
        project_filter: None,
        session_filter: None,
        limit,
        sort_by: SortOrder::Relevance,
        after: None,
        before: None,
    }
}

#[test]
fn scenario_search_rust() {
    let (_ix, engine) = indexed_engine();
    let results = engine.search(&query("rust", 10)).expect("search");
    assert_eq!(results.len(), 1);
    assert_eq!(results[0].uuid, "u1");
    assert!(results[0].snippet.contains("hello rust world"));
}

#[test]
fn scenario_context_window() {
    let (_ix, engine) = indexed_engine();
    let rows = engine.search_with_context(&query("rust", 10), 1, 1).expect("context");
    assert_eq!(rows.len(), 1);
    let row = &rows[0];
    assert_eq!(row.context_messages.len(), 2);
    assert_eq!(row.context_messages[0].uuid, "u1");
    assert_eq!(row.context_messages[1].uuid, "u2");
    assert_eq!(row.match_index, 0);
}

#[test]
fn scenario_session_by_prefix() {
    let (_ix, engine) = indexed_engine();
    let msgs = engine.get_session_messages("aabbccdd").expect("session");
    let uuids: Vec<&str> = msgs.iter().map(|m| m.uuid.as_str()).collect();
    assert_eq!(uuids, vec!["u1", "u2", "u4"]);
    let displayable: Vec<&str> = msgs
        .iter()
        .filter(|m| m.is_displayable())
        .map(|m| m.uuid.as_str())
        .collect();
    assert_eq!(displayable, vec!["u1", "u2"]);
}

#[test]
fn session_prefix_and_full_id_agree() {
    let (_ix, engine) = indexed_engine();
    let by_prefix = engine.get_session_messages("aabbccdd").expect("session");
    let by_full = engine.get_session_messages(SESSION).expect("session");
    let a: Vec<&str> = by_prefix.iter().map(|m| m.uuid.as_str()).collect();
    let b: Vec<&str> = by_full.iter().map(|m| m.uuid.as_str()).collect();
    assert_eq!(a, b);
}

#[test]
fn limit_zero_returns_empty() {
    let (_ix, engine) = indexed_engine();
    let results = engine.search(&query("rust", 0)).expect("search");
    assert!(results.is_empty());
}

#[test]
fn unmatched_project_filter_is_empty_not_error() {
    let (_ix, engine) = indexed_engine();
    let mut q = query("rust", 10);
    q.project_filter = Some("no-such-project".to_string());
    let results = engine.search(&q).expect("search");
    assert!(results.is_empty());
}

#[test]
fn date_range_filters_apply() {
    let (_ix, engine) = indexed_engine();
    let mut q = query("rust", 10);
    // After the fixture's timestamps: nothing comes back.
    q.after = Some(1_800_000_000_000);
    assert!(engine.search(&q).expect("search").is_empty());
    let mut q2 = query("rust", 10);
    q2.before = Some(1_800_000_000_000);
    assert_eq!(engine.search(&q2).expect("search").len(), 1);
}

#[test]
fn delete_then_append_leaves_exactly_new_records() {
    let parser = JsonlParser::new();
    let limits = ParserLimits::default();
    let path = "/corpus/projects/-p/aabbccdd-1122-3344-5566-778899001122.jsonl";
    let entries = parser.parse_text(&fixture_text(), path, &limits);
    let entries_again = parser.parse_text(&fixture_text(), path, &limits);

    let mut indexer = SearchIndexer::new_in_ram(HEAP).expect("create index");
    indexer.index_conversations(entries).expect("index");
    // Reindex the same session: delete first, then append.
    indexer.delete_session(SESSION);
    indexer.index_conversations(entries_again).expect("reindex");

    let engine = SearchEngine::for_index(indexer.index_handle(), Vec::new()).expect("engine");
    let msgs = engine.get_session_messages(SESSION).expect("session");
    assert_eq!(msgs.len(), 3);
    // Each uuid comes back exactly once.
    for wanted in ["u1", "u2", "u4"] {
        let found = engine
            .get_messages_by_uuid(&vec![wanted.to_string()])
            .expect("by uuid");
        assert_eq!(found.len(), 1);
        assert_eq!(found[0].uuid, wanted);
    }
}

#[test]
fn append_then_retrieve_every_uuid() {
    let (_ix, engine) = indexed_engine();
    let ids: Vec<String> = vec!["u1".to_string(), "u2".to_string(), "u4".to_string()];
    let found = engine.get_messages_by_uuid(&ids).expect("by uuid");
    assert_eq!(found.len(), 3);
    assert_eq!(found[0].uuid, "u1");
    assert_eq!(found[1].uuid, "u2");
    assert_eq!(found[2].uuid, "u4");
}

#[test]
fn schema_roundtrip_fields_materialize() {
    let (_ix, engine) = indexed_engine();
    let msgs = engine.get_session_messages(SESSION).expect("session");
    let u1 = msgs.iter().find(|m| m.uuid == "u1").unwrap();
    assert_eq!(u1.project, "proj");
    assert_eq!(u1.project_path, "/home/me/proj");
    assert_eq!(u1.session_id, SESSION);
    assert_eq!(u1.sequence_num, 0);
    assert!(u1.technologies.contains(&"rust".to_string()));
    assert_eq!(u1.timestamp_ms, 1735725600000);
    let u2 = msgs.iter().find(|m| m.uuid == "u2").unwrap();
    assert!(u2.tools_mentioned.contains(&"Bash".to_string()));
}

#[test]
fn date_sort_orders_apply() {
    let (_ix, engine) = indexed_engine();
    let mut q = query("hello OR code", 10);
    q.sort_by = SortOrder::DateAsc;
    let asc = engine.search(&q).expect("search");
    assert!(asc.windows(2).all(|w| w[0].timestamp_ms <= w[1].timestamp_ms));
    q.sort_by = SortOrder::DateDesc;
    let desc = engine.search(&q).expect("search");
    assert!(desc.windows(2).all(|w| w[0].timestamp_ms >= w[1].timestamp_ms));
}

#[test]
fn foreign_schema_is_a_rebuild_signal() {
    // An index whose schema lacks the required fields must be
    // reported as a schema mismatch, which callers treat as a
    // rebuild signal.
    let mut builder = tantivy::schema::SchemaBuilder::default();
    builder.add_text_field("something_else", tantivy::schema::TEXT);
    let foreign = tantivy::Index::create_in_ram(builder.build());
    let err = SearchEngine::for_index(foreign, Vec::new()).err();
    assert!(matches!(
        err,
        Some(claude_conversation_search::search::SearchError::SchemaMismatch)
    ));
}

#[test]
fn tag_frequencies_count_occurrences() {
    let (_ix, engine) = indexed_engine();
    let docs = engine.get_all_documents(None, 100).expect("all");
    let mut tech = tag_frequencies(&docs, TagField::Technologies);
    sort_counts_desc(&mut tech);
    let rust = tech.iter().find(|(name, _)| name == "rust");
    assert_eq!(rust.map(|(_, c)| *c), Some(1));
}

#[test]
fn interaction_counts_enrich_results() {
    let parser = JsonlParser::new();
    let limits = ParserLimits::default();
    let entries = parser.parse_text(
        &fixture_text(),
        "/home/me/corpus/projects/-home-me-proj/aabbccdd-1122-3344-5566-778899001122.jsonl",
        &limits,
    );
    let mut indexer = SearchIndexer::new_in_ram(HEAP).expect("create index");
    indexer.index_conversations(entries).expect("index");
    let counts = vec![(SESSION.to_string(), 7usize)];
    let engine = SearchEngine::for_index(indexer.index_handle(), counts).expect("engine");
    assert_eq!(engine.get_interaction_count(SESSION), 7);
    assert_eq!(engine.get_interaction_count("nope"), 0);
    let results = engine.search(&query("rust", 10)).expect("search");
    assert_eq!(results[0].interaction_count, 7);
}

#[test]
fn far_future_timestamps_index_without_panicking() {
    // Year 9999 is far outside the index's storable nanosecond range;
    // it is clamped when stored rather than overflowing.
    let parser = JsonlParser::new();
    let limits = ParserLimits::default();
    let line = r#"{"uuid":"f1","sessionId":"ffffffff-1122-3344-5566-778899001122","type":"user","timestamp":"9999-12-31T23:59:59Z","message":{"content":"from the far future"}}"#;
    let entries = parser.parse_text(line, "/corpus/projects/-p/x.jsonl", &limits);
    assert_eq!(entries.len(), 1);
    let mut indexer = SearchIndexer::new_in_ram(HEAP).expect("create index");
    indexer.index_conversations(entries).expect("index");
    let engine = SearchEngine::for_index(indexer.index_handle(), Vec::new()).expect("engine");
    let found = engine
        .get_messages_by_uuid(&vec!["f1".to_string()])
        .expect("by uuid");
    assert_eq!(found.len(), 1);
    // The stored instant is clamped to the representable maximum.
    assert_eq!(found[0].timestamp_ms, 9_223_372_036_854);
}
