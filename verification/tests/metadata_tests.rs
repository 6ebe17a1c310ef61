use claude_conversation_search::metadata::MetadataExtractor;

#[test]
fn test_technology_extraction() {
    let content = "I'm working on a Rust project with Cargo and need to use Docker containers";
    let techs = MetadataExtractor::extract_technologies(content);
    assert!(techs.contains(&"rust".to_string()));
    assert!(techs.contains(&"docker".to_string()));
}

#[test]
fn test_code_detection() {
    let content_with_code = "Here's some code:\n```rust\nfn main() {}\n```";
    let content_without_code = "This is just plain text";

    assert!(MetadataExtractor::has_code_blocks(content_with_code));
    assert!(!MetadataExtractor::has_code_blocks(content_without_code));
}

#[test]
fn test_error_detection() {
    let content_with_error = "I'm getting an error when running this";
    let content_normal = "Everything is working fine";

    assert!(MetadataExtractor::has_error_mentions(content_with_error));
    assert!(!MetadataExtractor::has_error_mentions(content_normal));
}

#[test]
fn test_word_boundaries_respected() {
    // "containers" must not match the word pattern "container".
    let techs = MetadataExtractor::extract_technologies("many containers here");
    assert!(!techs.contains(&"docker".to_string()));
    // "rustling" must not match "rust".
    let techs = MetadataExtractor::extract_technologies("rustling leaves");
    assert!(!techs.contains(&"rust".to_string()));
}

#[test]
fn test_case_insensitive_match() {
    let techs = MetadataExtractor::extract_technologies("POSTGRES is down");
    assert!(techs.contains(&"postgresql".to_string()));
}

#[test]
fn test_gap_pattern() {
    // "amazon ... web" on one line matches the aws pattern.
    let techs = MetadataExtractor::extract_technologies("the amazon elastic web offering");
    assert!(techs.contains(&"aws".to_string()));
    // A newline inside the gap defeats it.
    let techs = MetadataExtractor::extract_technologies("amazon things\nweb things");
    assert!(!techs.contains(&"aws".to_string()));
}

#[test]
fn test_whitespace_pair_pattern() {
    let techs = MetadataExtractor::extract_technologies("then go   build it");
    assert!(techs.contains(&"go".to_string()));
    assert!(!MetadataExtractor::extract_technologies("gobuild").contains(&"go".to_string()));
}

#[test]
fn test_code_language_hints() {
    let content = "```python\nprint(1)\n```";
    let langs = MetadataExtractor::extract_code_languages(content);
    assert!(langs.contains(&"python".to_string()));
    // Language hints are case-sensitive fence matches.
    let langs = MetadataExtractor::extract_code_languages("```Python\nprint(1)\n```");
    assert!(!langs.contains(&"python".to_string()));
}

#[test]
fn test_tools_mentioned() {
    let tools = MetadataExtractor::extract_tools_mentioned("try grep or ssh into the box");
    assert!(tools.contains(&"grep".to_string()));
    assert!(tools.contains(&"ssh".to_string()));
}

#[test]
fn test_count_words() {
    assert_eq!(MetadataExtractor::count_words("  one  two\tthree\n"), 3);
    assert_eq!(MetadataExtractor::count_words(""), 0);
}

#[test]
fn test_no_duplicate_tags() {
    let techs = MetadataExtractor::extract_technologies("rust rust cargo rustc");
    let rust_count = techs.iter().filter(|t| t.as_str() == "rust").count();
    assert_eq!(rust_count, 1);
}

#[test]
fn test_all_metadata_consistent() {
    let content = "A rust error:\n```rust\npanic!()\n```";
    let (techs, _tools, langs, has_code, has_error) =
        MetadataExtractor::extract_all_metadata(content);
    assert!(techs.contains(&"rust".to_string()));
    assert!(langs.contains(&"rust".to_string()));
    assert!(has_code);
    assert!(has_error);
}
