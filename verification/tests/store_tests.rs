//! Tests for the in-memory store and the search executor.

use mcp_database::db_service::DatabaseService;
use mcp_database::db_service::MemoryStore;
use mcp_database::db_service::StoreError;
use mcp_database::db_service::estimate_token_count;
use mcp_database::models::Chapter;
use mcp_database::models::Character;
use mcp_database::models::Novel;
use mcp_database::models::QA;
use mcp_database::models::ResultRecords;
use mcp_database::models::SearchFilters;
use mcp_database::models::SearchParams;

fn novel(title: &str, author: &str, summary: &str, tags: &[&str]) -> Novel {
    Novel {
        id: None,
        title: title.to_string(),
        author: author.to_string(),
        summary: summary.to_string(),
        tags: tags.iter().map(|t| t.to_string()).collect(),
        metadata: None,
    }
}

fn chapter(id: &str, number: u32, title: &str, summary: &str, content: Option<&str>) -> Chapter {
    Chapter {
        id: Some(id.to_string()),
        novel_id: "aaaaaaaaaaaaaaaaaaaaaaaa".to_string(),
        number,
        title: title.to_string(),
        summary: summary.to_string(),
        key_points: vec![],
        content: content.map(|c| c.to_string()),
    }
}

fn character(name: &str, role: &str, description: &str) -> Character {
    Character {
        id: None,
        novel_id: "aaaaaaaaaaaaaaaaaaaaaaaa".to_string(),
        name: name.to_string(),
        role: role.to_string(),
        description: description.to_string(),
        key_traits: vec![],
        relationships: vec![],
    }
}

fn qa(question: &str, answer: &str) -> QA {
    QA {
        id: None,
        novel_id: None,
        question: question.to_string(),
        answer: answer.to_string(),
        tags: vec![],
    }
}

fn plain_params(collection: &str, keywords: &[&str], limit: Option<u32>) -> SearchParams {
    SearchParams {
        collection: collection.to_string(),
        query_type: "search".to_string(),
        keywords: keywords.iter().map(|k| k.to_string()).collect(),
        filters: None,
        limit,
    }
}

#[test]
fn chapters_limit_three_of_four_matches_reports_more() {
    let store = MemoryStore {
        novels: vec![],
        chapters: vec![
            chapter("c1c1c1c1c1c1c1c1c1c1c1c1", 1, "One", "start", None),
            chapter("c2c2c2c2c2c2c2c2c2c2c2c2", 2, "Two", "middle", None),
            chapter("c3c3c3c3c3c3c3c3c3c3c3c3", 3, "Three", "middle", None),
            chapter("c4c4c4c4c4c4c4c4c4c4c4c4", 4, "Four", "end", None),
        ],
        characters: vec![],
        qa_entries: vec![],
    };
    let resp = store
        .search_chapters(&plain_params("chapters", &[], Some(3)))
        .expect("memory search cannot fail");
    match resp.data {
        ResultRecords::Chapters(rs) => assert_eq!(rs.len(), 3),
        _ => panic!("chapters search must return chapter records"),
    }
    assert!(resp.metadata.has_more);
    assert!(resp.metadata.next_page_token.is_some());
    assert!(resp
        .metadata
        .next_page_token
        .unwrap()
        .starts_with("page_token_"));
}

#[test]
fn chapters_within_limit_report_no_more() {
    let store = MemoryStore {
        novels: vec![],
        chapters: vec![chapter("c1c1c1c1c1c1c1c1c1c1c1c1", 1, "One", "only", None)],
        characters: vec![],
        qa_entries: vec![],
    };
    let resp = store
        .search_chapters(&plain_params("chapters", &[], Some(3)))
        .unwrap();
    assert!(!resp.metadata.has_more);
    assert!(resp.metadata.next_page_token.is_none());
}

#[test]
fn chapters_are_sorted_by_number_and_stripped() {
    let store = MemoryStore {
        novels: vec![],
        chapters: vec![
            chapter("c3c3c3c3c3c3c3c3c3c3c3c3", 3, "Three", "s3", Some("full text")),
            chapter("c1c1c1c1c1c1c1c1c1c1c1c1", 1, "One", "s1", Some("full text")),
            chapter("c2c2c2c2c2c2c2c2c2c2c2c2", 2, "Two", "s2", None),
        ],
        characters: vec![],
        qa_entries: vec![],
    };
    let resp = store.search_chapters(&plain_params("chapters", &[], None)).unwrap();
    match resp.data {
        ResultRecords::Chapters(rs) => {
            let numbers: Vec<u32> = rs.iter().map(|c| c.number).collect();
            assert_eq!(numbers, vec![1, 2, 3]);
            assert!(rs.iter().all(|c| c.content.is_none()));
        },
        _ => panic!("chapters search must return chapter records"),
    }
}

#[test]
fn characters_are_sorted_by_name() {
    let store = MemoryStore {
        novels: vec![],
        chapters: vec![],
        characters: vec![
            character("Cora", "ally", "calm"),
            character("Abel", "hero", "bold"),
            character("Bram", "foe", "sly"),
        ],
        qa_entries: vec![],
    };
    let resp = store
        .search_characters(&plain_params("characters", &[], None))
        .unwrap();
    match resp.data {
        ResultRecords::Characters(rs) => {
            let names: Vec<String> = rs.iter().map(|c| c.name.clone()).collect();
            assert_eq!(names, vec!["Abel", "Bram", "Cora"]);
        },
        _ => panic!("characters search must return character records"),
    }
}

#[test]
fn keyword_match_is_case_insensitive() {
    let store = MemoryStore {
        novels: vec![
            novel("Dragon Tale", "A. Writer", "a story of fire", &["fantasy"]),
            novel("Sea Voyage", "B. Sailor", "a story of water", &["nautical"]),
        ],
        chapters: vec![],
        characters: vec![],
        qa_entries: vec![],
    };
    let resp = store
        .search_novels(&plain_params("novels", &["DRAGON"], None))
        .unwrap();
    match resp.data {
        ResultRecords::Novels(rs) => {
            assert_eq!(rs.len(), 1);
            assert_eq!(rs[0].title, "Dragon Tale");
        },
        _ => panic!("novels search must return novel records"),
    }
}

#[test]
fn novels_tag_filter_requires_shared_tag() {
    let store = MemoryStore {
        novels: vec![
            novel("One", "A", "s", &["fantasy", "epic"]),
            novel("Two", "B", "s", &["romance"]),
        ],
        chapters: vec![],
        characters: vec![],
        qa_entries: vec![],
    };
    let mut params = plain_params("novels", &[], None);
    params.filters = Some(SearchFilters {
        novel_id: None,
        character_name: None,
        tags: Some(vec!["epic".to_string()]),
    });
    let resp = store.search_novels(&params).unwrap();
    match resp.data {
        ResultRecords::Novels(rs) => {
            assert_eq!(rs.len(), 1);
            assert_eq!(rs[0].title, "One");
        },
        _ => panic!("novels search must return novel records"),
    }
}

#[test]
fn malformed_novel_id_filter_is_ignored() {
    let store = MemoryStore {
        novels: vec![],
        chapters: vec![chapter("c1c1c1c1c1c1c1c1c1c1c1c1", 1, "One", "s", None)],
        characters: vec![],
        qa_entries: vec![],
    };
    let mut params = plain_params("chapters", &[], None);
    params.filters = Some(SearchFilters {
        novel_id: Some("not-a-valid-identifier".to_string()),
        character_name: None,
        tags: None,
    });
    let resp = store.search_chapters(&params).unwrap();
    match resp.data {
        ResultRecords::Chapters(rs) => assert_eq!(rs.len(), 1),
        _ => panic!("chapters search must return chapter records"),
    }
}

#[test]
fn qa_regex_matches_question_or_answer_case_insensitively() {
    let store = MemoryStore {
        novels: vec![],
        chapters: vec![],
        characters: vec![],
        qa_entries: vec![
            qa("What is Magic?", "An art."),
            qa("Who rules?", "The king of MAGIC."),
            qa("Where is the sea?", "East."),
        ],
    };
    let entries = store.search_qa_by_regex("magic").unwrap();
    assert_eq!(entries.len(), 2);
    assert_eq!(entries[0].question, "What is Magic?");
    assert_eq!(entries[1].answer, "The king of MAGIC.");
}

#[test]
fn invalid_regex_is_a_backend_error() {
    let store = MemoryStore::new();
    let r = store.search_qa_by_regex("(");
    assert!(matches!(r, Err(StoreError::Backend(_))));
}

#[test]
fn chapter_regex_results_are_stripped() {
    let store = MemoryStore {
        novels: vec![],
        chapters: vec![chapter(
            "c1c1c1c1c1c1c1c1c1c1c1c1",
            1,
            "The Dragon Door",
            "s",
            Some("secret full text"),
        )],
        characters: vec![],
        qa_entries: vec![],
    };
    let entries = store.search_chapters_by_regex("dragon").unwrap();
    assert_eq!(entries.len(), 1);
    assert!(entries[0].content.is_none());
}

#[test]
fn get_chapter_content_prefers_full_text() {
    let store = MemoryStore {
        novels: vec![],
        chapters: vec![
            chapter("c1c1c1c1c1c1c1c1c1c1c1c1", 1, "One", "short summary", Some("the full text")),
            chapter("c2c2c2c2c2c2c2c2c2c2c2c2", 2, "Two", "only a summary", None),
        ],
        characters: vec![],
        qa_entries: vec![],
    };
    assert_eq!(
        store.get_chapter_content("c1c1c1c1c1c1c1c1c1c1c1c1").unwrap(),
        Some("the full text".to_string())
    );
    assert_eq!(
        store.get_chapter_content("c2c2c2c2c2c2c2c2c2c2c2c2").unwrap(),
        Some("Summary: only a summary".to_string())
    );
    // Malformed identifiers resolve to not-found, never an error.
    assert_eq!(store.get_chapter_content("nope").unwrap(), None);
    assert_eq!(
        store.get_chapter_content("dddddddddddddddddddddddd").unwrap(),
        None
    );
}

#[test]
fn get_chapter_content_sentinel_when_nothing_is_stored() {
    let store = MemoryStore {
        novels: vec![],
        chapters: vec![chapter("c1c1c1c1c1c1c1c1c1c1c1c1", 1, "One", "", None)],
        characters: vec![],
        qa_entries: vec![],
    };
    assert_eq!(
        store.get_chapter_content("c1c1c1c1c1c1c1c1c1c1c1c1").unwrap(),
        Some("No content or summary available for this chapter.".to_string())
    );
}

#[test]
fn update_chapter_summary_not_found_is_reported() {
    let mut store = MemoryStore {
        novels: vec![],
        chapters: vec![chapter("c1c1c1c1c1c1c1c1c1c1c1c1", 1, "One", "old", None)],
        characters: vec![],
        qa_entries: vec![],
    };
    let r = store.update_chapter_summary("dddddddddddddddddddddddd", "new");
    assert_eq!(r, Err(StoreError::NotFound));
    // The store is untouched.
    assert_eq!(store.chapters[0].summary, "old");
}

#[test]
fn update_chapter_summary_rejects_malformed_identifier() {
    let mut store = MemoryStore::new();
    let r = store.update_chapter_summary("short", "new");
    assert_eq!(r, Err(StoreError::InvalidId));
}

#[test]
fn update_chapter_summary_replaces_in_place() {
    let mut store = MemoryStore {
        novels: vec![],
        chapters: vec![
            chapter("c1c1c1c1c1c1c1c1c1c1c1c1", 1, "One", "old one", Some("text")),
            chapter("c2c2c2c2c2c2c2c2c2c2c2c2", 2, "Two", "old two", None),
        ],
        characters: vec![],
        qa_entries: vec![],
    };
    store
        .update_chapter_summary("c2c2c2c2c2c2c2c2c2c2c2c2", "fresh")
        .unwrap();
    assert_eq!(store.chapters[0].summary, "old one");
    assert_eq!(store.chapters[1].summary, "fresh");
    assert_eq!(store.chapters[0].content, Some("text".to_string()));
}

#[test]
fn search_all_joins_all_four_collections() {
    let store = MemoryStore {
        novels: vec![novel("N", "A", "s", &[])],
        chapters: vec![chapter("c1c1c1c1c1c1c1c1c1c1c1c1", 1, "C", "s", None)],
        characters: vec![character("X", "hero", "d")],
        qa_entries: vec![qa("Q?", "A.")],
    };
    let all = store.search_all(&plain_params("novels", &[], None)).unwrap();
    assert_eq!(all.novels.len(), 1);
    assert_eq!(all.chapters.len(), 1);
    assert_eq!(all.characters.len(), 1);
    assert_eq!(all.qa_entries.len(), 1);
}

#[test]
fn token_estimate_is_one_per_four_bytes_rounded_up() {
    assert_eq!(estimate_token_count(""), 0);
    assert_eq!(estimate_token_count("abcd"), 1);
    assert_eq!(estimate_token_count("abcde"), 2);
}

#[test]
fn search_response_reports_token_count() {
    let store = MemoryStore {
        novels: vec![novel("N", "A", "s", &[])],
        chapters: vec![],
        characters: vec![],
        qa_entries: vec![],
    };
    let resp = store.search_novels(&plain_params("novels", &[], None)).unwrap();
    assert_eq!(resp.status, "success");
    let tokens = resp.metadata.token_count.unwrap();
    // The serialized record list is short but never empty.
    assert!(tokens >= 1);
}
