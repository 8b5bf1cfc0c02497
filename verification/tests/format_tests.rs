//! Tests for the response formatter.

use mcp_database::formatting::format_all_results;
use mcp_database::formatting::format_chapters;
use mcp_database::formatting::format_character_details;
use mcp_database::formatting::format_characters;
use mcp_database::formatting::format_content_for_llm;
use mcp_database::formatting::format_novels;
use mcp_database::formatting::format_qa;
use mcp_database::models::Chapter;
use mcp_database::models::Character;
use mcp_database::models::Novel;
use mcp_database::models::QA;
use mcp_database::models::Relationship;
use mcp_database::models::ResultRecords;
use mcp_database::models::SearchAllResults;
use mcp_database::models::SearchParams;

fn params_for(collection: &str) -> SearchParams {
    SearchParams {
        collection: collection.to_string(),
        query_type: "search".to_string(),
        keywords: vec![],
        filters: None,
        limit: None,
    }
}

#[test]
fn empty_novels_render_as_no_results() {
    let text = format_content_for_llm(&ResultRecords::Novels(vec![]), &params_for("novels"));
    assert_eq!(text, "No results found for your query about novels.");
}

#[test]
fn empty_chapters_render_as_no_results() {
    let text =
        format_content_for_llm(&ResultRecords::Chapters(vec![]), &params_for("chapters"));
    assert_eq!(text, "No results found for your query about chapters.");
}

#[test]
fn empty_characters_render_as_no_results() {
    let text = format_content_for_llm(
        &ResultRecords::Characters(vec![]),
        &params_for("characters"),
    );
    assert_eq!(text, "No results found for your query about characters.");
}

#[test]
fn empty_qa_renders_as_no_results() {
    let text = format_content_for_llm(&ResultRecords::QaEntries(vec![]), &params_for("qa"));
    assert_eq!(text, "No results found for your query about qa.");
}

#[test]
fn novels_template_is_exact() {
    let novels = vec![Novel {
        id: None,
        title: "Dragon Tale".to_string(),
        author: "A. Writer".to_string(),
        summary: "Fire and flight.".to_string(),
        tags: vec![],
        metadata: None,
    }];
    let text = format_novels(&novels);
    assert_eq!(
        text,
        "Found 1 novels:\n\n1. \"Dragon Tale\" by A. Writer\n   Summary: Fire and flight.\n\n"
    );
}

#[test]
fn novels_template_uses_placeholders_and_truncation() {
    let long_summary = "x".repeat(200);
    let novels = vec![Novel {
        id: None,
        title: "T".to_string(),
        author: String::new(),
        summary: long_summary.clone(),
        tags: vec![],
        metadata: None,
    }];
    let text = format_novels(&novels);
    assert!(text.contains("by Unknown"));
    let expected_cut = format!("{}...", &long_summary[0..150]);
    assert!(text.contains(&expected_cut));
}

#[test]
fn chapters_template_lists_key_points() {
    let chapters = vec![Chapter {
        id: None,
        novel_id: "n".to_string(),
        number: 5,
        title: "The Door".to_string(),
        summary: "Opening.".to_string(),
        key_points: vec!["a door".to_string(), "a key".to_string()],
        content: None,
    }];
    let text = format_chapters(&chapters);
    assert_eq!(
        text,
        "Found 1 chapters:\n\nChapter 5: The Door\n   Summary: Opening.\n\n   Key points:\n   - a door\n   - a key\n\n"
    );
}

#[test]
fn characters_template_lists_traits_and_relationships() {
    let characters = vec![Character {
        id: None,
        novel_id: "n".to_string(),
        name: "Alice".to_string(),
        role: "protagonist".to_string(),
        description: "Brave.".to_string(),
        key_traits: vec!["bold".to_string(), "kind".to_string()],
        relationships: vec![Relationship {
            character_id: None,
            character_name: "Bob".to_string(),
            relationship_type: "friend".to_string(),
        }],
    }];
    let text = format_characters(&characters);
    assert_eq!(
        text,
        "Found 1 characters:\n\n1. Alice (protagonist)\n   Description: Brave.\n   Key traits: bold, kind\n   Relationships:\n   - Bob (friend)\n\n"
    );
}

#[test]
fn qa_template_numbers_pairs() {
    let entries = vec![
        QA {
            id: None,
            novel_id: None,
            question: "Q one?".to_string(),
            answer: "A one.".to_string(),
            tags: vec![],
        },
        QA {
            id: None,
            novel_id: None,
            question: "Q two?".to_string(),
            answer: "A two.".to_string(),
            tags: vec![],
        },
    ];
    let text = format_qa(&entries);
    assert_eq!(
        text,
        "Found 2 Q&A entries:\n\nQ1: Q one?\nA: A one.\n\nQ2: Q two?\nA: A two.\n\n"
    );
}

#[test]
fn all_results_empty_is_fixed_message() {
    let all = SearchAllResults {
        novels: vec![],
        chapters: vec![],
        characters: vec![],
        qa_entries: vec![],
    };
    assert_eq!(format_all_results(&all), "No results found matching your query.");
}

#[test]
fn all_results_caps_sections_and_counts_everything() {
    let mk = |t: &str| Novel {
        id: None,
        title: t.to_string(),
        author: "A".to_string(),
        summary: "s".to_string(),
        tags: vec![],
        metadata: None,
    };
    let all = SearchAllResults {
        novels: vec![mk("N1"), mk("N2"), mk("N3"), mk("N4"), mk("N5")],
        chapters: vec![],
        characters: vec![],
        qa_entries: vec![],
    };
    let text = format_all_results(&all);
    assert!(text.starts_with("Found 5 results matching your query. Here's a summary:\n\n"));
    assert!(text.contains("NOVELS (top 3 results):\n1. N1 by A\n2. N2 by A\n3. N3 by A"));
    assert!(!text.contains("N4"));
}

#[test]
fn character_details_template_is_exact() {
    let c = Character {
        id: None,
        novel_id: "bbbbbbbbbbbbbbbbbbbbbbbb".to_string(),
        name: "Alice".to_string(),
        role: "protagonist".to_string(),
        description: "Brave and curious.".to_string(),
        key_traits: vec![],
        relationships: vec![Relationship {
            character_id: None,
            character_name: "Bob".to_string(),
            relationship_type: "friend of".to_string(),
        }],
    };
    let text = format_character_details(&c);
    assert_eq!(
        text,
        "CHARACTER: Alice\nROLE: protagonist\nNOVEL: bbbbbbbbbbbbbbbbbbbbbbbb\n\nDESCRIPTION:\nBrave and curious.\n\nRELATIONSHIPS:\n- Alice is friend of Bob"
    );
}

#[test]
fn character_details_without_relationships_uses_placeholder() {
    let c = Character {
        id: None,
        novel_id: "n".to_string(),
        name: "Solo".to_string(),
        role: String::new(),
        description: String::new(),
        key_traits: vec![],
        relationships: vec![],
    };
    let text = format_character_details(&c);
    assert!(text.contains("ROLE: Unknown role"));
    assert!(text.contains("DESCRIPTION:\nNo description available"));
    assert!(text.ends_with("RELATIONSHIPS:\nNo relationship information available"));
}
