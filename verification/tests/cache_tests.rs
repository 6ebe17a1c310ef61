use claude_conversation_search::cache::{CacheManager, FileStat, SweepFile};
use claude_conversation_search::indexer::SearchIndexer;
use claude_conversation_search::parser::ParserLimits;
use claude_conversation_search::search::SearchEngine;

const HEAP: usize = 50_000_000;
const SESSION: &str = "aabbccdd-1122-3344-5566-778899001122";
const PATH: &str = "/corpus/projects/-p/aabbccdd-1122-3344-5566-778899001122.jsonl";

fn fixture_text() -> String {
    let mut t = String::new();
    t.push_str(r#"{"uuid":"u1","sessionId":"aabbccdd-1122-3344-5566-778899001122","type":"user","timestamp":"2025-01-01T10:00:00Z","message":{"content":"hello rust world"}}"#);
    t.push('\n');
    t.push_str(r#"{"uuid":"u2","sessionId":"aabbccdd-1122-3344-5566-778899001122","type":"assistant","timestamp":"2025-01-01T10:00:01Z","message":{"content":"more text"}}"#);
    t.push('\n');
    t
}

fn sweep_file(size: u64, mtime: i64, content: Option<String>) -> SweepFile {
    SweepFile {
        path: PATH.to_string(),
        stat: Some(FileStat { size, modified_ms: mtime }),
        content,
    }
}

fn fingerprint(cache: &CacheManager, path: &str) -> Option<(u64, i64, usize)> {
    cache
        .metadata
        .indexed_files
        .iter()
        .find(|(p, _)| p == path)
        .map(|(_, fm)| (fm.size, fm.modified_ms, fm.entry_count))
}

#[test]
fn first_sweep_indexes_and_fingerprints() {
    let mut indexer = SearchIndexer::new_in_ram(HEAP).expect("index");
    let mut cache = CacheManager::new("/cache".to_string(), None);
    let files = vec![sweep_file(100, 1000, Some(fixture_text()))];
    cache
        .update_incremental(&mut indexer, &files, 5000, &ParserLimits::default())
        .expect("sweep");
    assert_eq!(fingerprint(&cache, PATH), Some((100, 1000, 2)));
    assert_eq!(cache.metadata.total_entries, 2);
    assert_eq!(cache.metadata.last_full_scan_ms, Some(5000));

    let engine = SearchEngine::for_index(indexer.index_handle(), Vec::new()).expect("engine");
    assert_eq!(engine.get_session_messages(SESSION).expect("session").len(), 2);
}

#[test]
fn unchanged_file_is_skipped() {
    let mut indexer = SearchIndexer::new_in_ram(HEAP).expect("index");
    let mut cache = CacheManager::new("/cache".to_string(), None);
    let files = vec![sweep_file(100, 1000, Some(fixture_text()))];
    cache
        .update_incremental(&mut indexer, &files, 5000, &ParserLimits::default())
        .expect("first sweep");
    let before = fingerprint(&cache, PATH);
    // Second sweep with the same stats: no parse content even handed
    // over, nothing changes but the scan clock.
    let files2 = vec![sweep_file(100, 1000, None)];
    cache
        .update_incremental(&mut indexer, &files2, 7000, &ParserLimits::default())
        .expect("second sweep");
    assert_eq!(fingerprint(&cache, PATH), before);
    assert_eq!(cache.metadata.total_entries, 2);
    assert_eq!(cache.metadata.last_full_scan_ms, Some(7000));
}

#[test]
fn second_identical_sweep_is_idempotent() {
    let mut indexer = SearchIndexer::new_in_ram(HEAP).expect("index");
    let mut cache = CacheManager::new("/cache".to_string(), None);
    let files = vec![sweep_file(100, 1000, Some(fixture_text()))];
    cache
        .update_incremental(&mut indexer, &files, 5000, &ParserLimits::default())
        .expect("first sweep");
    cache
        .update_incremental(&mut indexer, &files, 9000, &ParserLimits::default())
        .expect("second sweep");
    assert_eq!(fingerprint(&cache, PATH), Some((100, 1000, 2)));
    assert_eq!(cache.metadata.total_entries, 2);
    assert_eq!(cache.metadata.last_full_scan_ms, Some(9000));
    // No duplicate records were appended.
    let engine = SearchEngine::for_index(indexer.index_handle(), Vec::new()).expect("engine");
    assert_eq!(engine.get_session_messages(SESSION).expect("session").len(), 2);
}

#[test]
fn touched_mtime_reindexes_exactly_that_file() {
    let mut indexer = SearchIndexer::new_in_ram(HEAP).expect("index");
    let mut cache = CacheManager::new("/cache".to_string(), None);
    let files = vec![sweep_file(100, 1000, Some(fixture_text()))];
    cache
        .update_incremental(&mut indexer, &files, 5000, &ParserLimits::default())
        .expect("first sweep");
    // Touch: same size, new mtime.
    let files2 = vec![sweep_file(100, 2000, Some(fixture_text()))];
    cache
        .update_incremental(&mut indexer, &files2, 6000, &ParserLimits::default())
        .expect("touch sweep");
    assert_eq!(fingerprint(&cache, PATH), Some((100, 2000, 2)));
    // The session was deleted and re-appended, not duplicated.
    let engine = SearchEngine::for_index(indexer.index_handle(), Vec::new()).expect("engine");
    assert_eq!(engine.get_session_messages(SESSION).expect("session").len(), 2);
}

#[test]
fn empty_file_gets_zero_fingerprint_and_no_writes() {
    let mut indexer = SearchIndexer::new_in_ram(HEAP).expect("index");
    let mut cache = CacheManager::new("/cache".to_string(), None);
    let files = vec![sweep_file(0, 1000, Some(String::new()))];
    cache
        .update_incremental(&mut indexer, &files, 5000, &ParserLimits::default())
        .expect("sweep");
    assert_eq!(fingerprint(&cache, PATH), Some((0, 1000, 0)));
    assert_eq!(cache.metadata.total_entries, 0);
}

#[test]
fn malformed_only_file_is_not_fingerprinted() {
    let mut indexer = SearchIndexer::new_in_ram(HEAP).expect("index");
    let mut cache = CacheManager::new("/cache".to_string(), None);
    let files = vec![sweep_file(50, 1000, Some("this is not json\n".to_string()))];
    cache
        .update_incremental(&mut indexer, &files, 5000, &ParserLimits::default())
        .expect("sweep");
    assert_eq!(fingerprint(&cache, PATH), None);
    // So it is retried by the next sweep.
    assert!(cache.needs_indexing(PATH, 50, 1000));
}

#[test]
fn vanished_file_is_evicted() {
    let mut indexer = SearchIndexer::new_in_ram(HEAP).expect("index");
    let mut cache = CacheManager::new("/cache".to_string(), None);
    let files = vec![sweep_file(100, 1000, Some(fixture_text()))];
    cache
        .update_incremental(&mut indexer, &files, 5000, &ParserLimits::default())
        .expect("first sweep");
    assert!(fingerprint(&cache, PATH).is_some());
    let gone = vec![SweepFile { path: PATH.to_string(), stat: None, content: None }];
    cache
        .update_incremental(&mut indexer, &gone, 6000, &ParserLimits::default())
        .expect("evict sweep");
    assert_eq!(fingerprint(&cache, PATH), None);
    // Its records stay in the index until a rebuild.
    let engine = SearchEngine::for_index(indexer.index_handle(), Vec::new()).expect("engine");
    assert_eq!(engine.get_session_messages(SESSION).expect("session").len(), 2);
}

#[test]
fn needs_indexing_on_size_or_mtime_change() {
    let mut indexer = SearchIndexer::new_in_ram(HEAP).expect("index");
    let mut cache = CacheManager::new("/cache".to_string(), None);
    let files = vec![sweep_file(100, 1000, Some(fixture_text()))];
    cache
        .update_incremental(&mut indexer, &files, 5000, &ParserLimits::default())
        .expect("sweep");
    assert!(!cache.needs_indexing(PATH, 100, 1000));
    assert!(cache.needs_indexing(PATH, 101, 1000));
    assert!(cache.needs_indexing(PATH, 100, 1001));
    assert!(cache.needs_indexing("/other.jsonl", 1, 1));
}

#[test]
fn health_checks_count_stale_and_new() {
    let mut indexer = SearchIndexer::new_in_ram(HEAP).expect("index");
    let mut cache = CacheManager::new("/cache".to_string(), None);
    let files = vec![sweep_file(100, 1000, Some(fixture_text()))];
    cache
        .update_incremental(&mut indexer, &files, 5000, &ParserLimits::default())
        .expect("sweep");

    // Unchanged on disk: healthy.
    let listing = vec![(PATH.to_string(), Some(FileStat { size: 100, modified_ms: 1000 }))];
    assert_eq!(cache.quick_health_check(&listing), (0, 0));
    let health = cache.check_index_health(&listing);
    assert!(matches!(
        health.status,
        claude_conversation_search::cache::IndexHealthStatus::Healthy
    ));

    // Touched on disk plus a new file.
    let listing2 = vec![
        (PATH.to_string(), Some(FileStat { size: 100, modified_ms: 2000 })),
        ("/corpus/projects/-p/other.jsonl".to_string(),
            Some(FileStat { size: 5, modified_ms: 1 })),
    ];
    assert_eq!(cache.quick_health_check(&listing2), (1, 1));
    let health2 = cache.check_index_health(&listing2);
    assert!(matches!(
        health2.status,
        claude_conversation_search::cache::IndexHealthStatus::NeedsUpdate
    ));

    // Vanished from disk entirely: more than half missing, rebuild.
    let listing3: Vec<(String, Option<FileStat>)> = Vec::new();
    let health3 = cache.check_index_health(&listing3);
    assert!(matches!(
        health3.status,
        claude_conversation_search::cache::IndexHealthStatus::NeedsRebuild
    ));
}

#[test]
fn clear_cache_resets_state() {
    let mut indexer = SearchIndexer::new_in_ram(HEAP).expect("index");
    let mut cache = CacheManager::new("/cache".to_string(), None);
    let files = vec![sweep_file(100, 1000, Some(fixture_text()))];
    cache
        .update_incremental(&mut indexer, &files, 5000, &ParserLimits::default())
        .expect("sweep");
    cache.clear_cache();
    let (n, total, scan) = cache.get_basic_stats();
    assert_eq!((n, total, scan), (0, 0, None));
}

#[test]
fn rebuild_after_clear_matches_fresh_index() {
    // clear() followed by a full sweep behaves like a fresh index
    // that saw the same files.
    let mut indexer1 = SearchIndexer::new_in_ram(HEAP).expect("index");
    let mut cache1 = CacheManager::new("/cache".to_string(), None);
    let files = vec![sweep_file(100, 1000, Some(fixture_text()))];
    cache1
        .update_incremental(&mut indexer1, &files, 5000, &ParserLimits::default())
        .expect("sweep");
    cache1.clear_cache();
    let mut indexer2 = SearchIndexer::new_in_ram(HEAP).expect("index");
    cache1
        .update_incremental(&mut indexer2, &files, 6000, &ParserLimits::default())
        .expect("rebuild sweep");

    let mut indexer3 = SearchIndexer::new_in_ram(HEAP).expect("index");
    let mut cache2 = CacheManager::new("/cache".to_string(), None);
    cache2
        .update_incremental(&mut indexer3, &files, 6000, &ParserLimits::default())
        .expect("fresh sweep");

    assert_eq!(fingerprint(&cache1, PATH), fingerprint(&cache2, PATH));
    assert_eq!(cache1.metadata.total_entries, cache2.metadata.total_entries);
    let e1 = SearchEngine::for_index(indexer2.index_handle(), Vec::new()).expect("engine");
    let e2 = SearchEngine::for_index(indexer3.index_handle(), Vec::new()).expect("engine");
    assert_eq!(
        e1.get_session_messages(SESSION).expect("s").len(),
        e2.get_session_messages(SESSION).expect("s").len()
    );
}

#[test]
fn get_stats_groups_by_project_directory() {
    let mut indexer = SearchIndexer::new_in_ram(HEAP).expect("index");
    let mut cache = CacheManager::new("/cache".to_string(), None);
    let other = r#"{"uuid":"x1","sessionId":"eeffeeff-1122-3344-5566-778899001122","type":"user","timestamp":"2025-03-01T10:00:00Z","message":{"content":"hello again"}}"#;
    let files = vec![
        sweep_file(100, 1000, Some(fixture_text())),
        SweepFile {
            path: "/corpus/projects/-q/eeffeeff-1122-3344-5566-778899001122.jsonl".to_string(),
            stat: Some(FileStat { size: 10, modified_ms: 1500 }),
            content: Some(format!("{other}\n")),
        },
    ];
    cache
        .update_incremental(&mut indexer, &files, 5000, &ParserLimits::default())
        .expect("sweep");
    let stats = cache.get_stats(0);
    assert_eq!(stats.total_files, 2);
    assert_eq!(stats.total_entries, 3);
    let names: Vec<&str> = stats.projects.iter().map(|p| p.name.as_str()).collect();
    assert!(names.contains(&"-p"));
    assert!(names.contains(&"-q"));
    let p = stats.projects.iter().find(|p| p.name == "-p").unwrap();
    assert_eq!((p.files, p.entries), (1, 2));
}

#[test]
fn health_report_lists_the_stale_path() {
    let mut indexer = SearchIndexer::new_in_ram(HEAP).expect("index");
    let mut cache = CacheManager::new("/cache".to_string(), None);
    let files = vec![sweep_file(100, 1000, Some(fixture_text()))];
    cache
        .update_incremental(&mut indexer, &files, 5000, &ParserLimits::default())
        .expect("sweep");
    let listing = vec![(PATH.to_string(), Some(FileStat { size: 200, modified_ms: 1000 }))];
    let health = cache.check_index_health(&listing);
    assert_eq!(health.stale_files, vec![PATH.to_string()]);
    assert!(health.missing_files.is_empty());
    assert!(health.new_files.is_empty());
}
