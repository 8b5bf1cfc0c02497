//! Tests for the natural-language query parser.

use mcp_database::query_parser::QueryParser;
use mcp_database::query_parser::parse_query;
use mcp_database::text::truncate_text;

#[test]
fn parse_chapters_query_with_limit() {
    let params = QueryParser::parse_natural_language_query("Find chapters about the dragon limit:2");
    assert_eq!(params.collection, "chapters");
    assert_eq!(params.query_type, "search");
    assert_eq!(params.keywords, vec!["chapters".to_string(), "dragon".to_string()]);
    assert_eq!(params.limit, Some(2));
}

#[test]
fn parse_defaults_to_novels_without_collection_keyword() {
    let params = QueryParser::parse_natural_language_query("tell me something nice");
    assert_eq!(params.collection, "novels");
}

#[test]
fn parse_empty_string_gives_full_default() {
    let params = QueryParser::parse_natural_language_query("");
    assert_eq!(params.collection, "novels");
    assert_eq!(params.query_type, "search");
    assert!(params.keywords.is_empty());
    assert_eq!(params.limit, None);
    let filters = params.filters.expect("filters struct always present");
    assert!(filters.novel_id.is_none());
    assert!(filters.character_name.is_none());
    assert!(filters.tags.is_none());
}

#[test]
fn keywords_drop_stop_words_and_short_tokens() {
    let params = QueryParser::parse_natural_language_query("find the dragon in an old castle");
    assert_eq!(params.keywords, vec!["dragon".to_string(), "old".to_string(), "castle".to_string()]);
    for k in &params.keywords {
        assert!(k.len() >= 3);
    }
}

#[test]
fn keywords_are_lowercased_and_trimmed() {
    let params = QueryParser::parse_natural_language_query("DRAGON, (Castle)");
    assert_eq!(params.keywords, vec!["dragon".to_string(), "castle".to_string()]);
}

#[test]
fn collection_tie_break_follows_table_order_not_text_order() {
    // The text mentions the question keyword first, but the table scans
    // the chapter entry earlier.
    let c = QueryParser::extract_collection("questions about chapters");
    assert_eq!(c, Some("chapters".to_string()));
}

#[test]
fn query_type_detects_summary() {
    let t = QueryParser::extract_query_type("give me an overview");
    assert_eq!(t, Some("summary".to_string()));
}

#[test]
fn extract_limit_variants() {
    assert_eq!(QueryParser::extract_limit("limit: 42"), Some(42));
    assert_eq!(QueryParser::extract_limit("limit=7"), Some(7));
    assert_eq!(QueryParser::extract_limit("limit 3"), Some(3));
    assert_eq!(QueryParser::extract_limit("no bound here"), None);
    // A value beyond the 32-bit range is treated as absent.
    assert_eq!(QueryParser::extract_limit("limit 99999999999"), None);
}

#[test]
fn extract_novel_id_variants() {
    assert_eq!(
        QueryParser::extract_novel_id("novel id: abc123"),
        Some("abc123".to_string())
    );
    assert_eq!(QueryParser::extract_novel_id("novel ID=XYZ"), Some("XYZ".to_string()));
    assert_eq!(QueryParser::extract_novel_id("novels about love"), None);
}

#[test]
fn extract_character_name_variants() {
    assert_eq!(
        QueryParser::extract_character_name("character named Alice"),
        Some("Alice".to_string())
    );
    assert_eq!(
        QueryParser::extract_character_name("character Alice Marie"),
        Some("Alice Marie".to_string())
    );
    assert_eq!(QueryParser::extract_character_name("characterless text"), None);
}

#[test]
fn extract_tags_splits_and_trims() {
    let tags = QueryParser::extract_tags("tags: magic, dragons");
    assert_eq!(tags, vec!["magic".to_string(), "dragons".to_string()]);
    let none = QueryParser::extract_tags("plain words");
    assert!(none.is_empty());
}

#[test]
fn truncate_text_cuts_with_ellipsis() {
    assert_eq!(truncate_text("hello", 10), "hello");
    assert_eq!(truncate_text("hello world", 5), "hello...");
}

#[test]
fn parse_query_collects_key_value_pairs() {
    let pairs = parse_query("type:novel limit:5");
    assert_eq!(
        pairs,
        vec![
            ("type".to_string(), "novel".to_string()),
            ("limit".to_string(), "5".to_string())
        ]
    );
}

#[test]
fn parse_query_later_key_replaces_in_place() {
    let pairs = parse_query("a:1 b:2 a:3");
    assert_eq!(
        pairs,
        vec![("a".to_string(), "3".to_string()), ("b".to_string(), "2".to_string())]
    );
}

#[test]
fn parse_query_falls_back_to_text_entry() {
    let pairs = parse_query("  just plain words  ");
    assert_eq!(pairs, vec![("text".to_string(), "just plain words".to_string())]);
    let empty = parse_query("   ");
    assert!(empty.is_empty());
}
