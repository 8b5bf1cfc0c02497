//! Tests for the per-collection query services.

use mcp_database::crud_service::ChapterCrudService;
use mcp_database::crud_service::CharacterCrudService;
use mcp_database::crud_service::NovelCrudService;
use mcp_database::crud_service::QACrudService;
use mcp_database::models::Chapter;
use mcp_database::models::Character;
use mcp_database::models::Novel;
use mcp_database::models::QA;

fn novel(title: &str, author: &str, tags: &[&str]) -> Novel {
    Novel {
        id: None,
        title: title.to_string(),
        author: author.to_string(),
        summary: "s".to_string(),
        tags: tags.iter().map(|t| t.to_string()).collect(),
        metadata: None,
    }
}

fn chapter(id: &str, novel_id: &str, number: u32, content: Option<&str>) -> Chapter {
    Chapter {
        id: Some(id.to_string()),
        novel_id: novel_id.to_string(),
        number,
        title: format!("Chapter {}", number),
        summary: "s".to_string(),
        key_points: vec![],
        content: content.map(|c| c.to_string()),
    }
}

fn character(novel_id: &str, name: &str, role: &str) -> Character {
    Character {
        id: None,
        novel_id: novel_id.to_string(),
        name: name.to_string(),
        role: role.to_string(),
        description: "d".to_string(),
        key_traits: vec![],
        relationships: vec![],
    }
}

fn qa(novel_id: Option<&str>, question: &str, answer: &str, tags: &[&str]) -> QA {
    QA {
        id: None,
        novel_id: novel_id.map(|s| s.to_string()),
        question: question.to_string(),
        answer: answer.to_string(),
        tags: tags.iter().map(|t| t.to_string()).collect(),
    }
}

#[test]
fn novels_by_title_is_a_case_insensitive_substring_match() {
    let service = NovelCrudService::new(vec![
        novel("The Dragon Road", "A", &[]),
        novel("Sea Tales", "B", &[]),
    ]);
    let found = service.find_by_title("dragon");
    assert_eq!(found.len(), 1);
    assert_eq!(found[0].title, "The Dragon Road");
    assert!(service.find_by_title("castle").is_empty());
}

#[test]
fn novels_by_author_matches_substrings() {
    let service = NovelCrudService::new(vec![
        novel("One", "Maria Stone", &[]),
        novel("Two", "John Reed", &[]),
    ]);
    let found = service.find_by_author("stone");
    assert_eq!(found.len(), 1);
    assert_eq!(found[0].author, "Maria Stone");
}

#[test]
fn novels_by_tags_needs_any_overlap() {
    let service = NovelCrudService::new(vec![
        novel("One", "A", &["fantasy", "epic"]),
        novel("Two", "B", &["romance"]),
    ]);
    let found = service.find_by_tags(&vec!["epic".to_string(), "noir".to_string()]);
    assert_eq!(found.len(), 1);
    assert_eq!(found[0].title, "One");
}

#[test]
fn chapters_by_novel_id_is_exact() {
    let service = ChapterCrudService::new(vec![
        chapter("c1c1c1c1c1c1c1c1c1c1c1c1", "aaaaaaaaaaaaaaaaaaaaaaaa", 1, None),
        chapter("c2c2c2c2c2c2c2c2c2c2c2c2", "bbbbbbbbbbbbbbbbbbbbbbbb", 2, None),
    ]);
    let found = service.find_by_novel_id("aaaaaaaaaaaaaaaaaaaaaaaa");
    assert_eq!(found.len(), 1);
    assert_eq!(found[0].number, 1);
}

#[test]
fn chapter_by_novel_and_number_takes_the_first_match() {
    let service = ChapterCrudService::new(vec![
        chapter("c1c1c1c1c1c1c1c1c1c1c1c1", "aaaaaaaaaaaaaaaaaaaaaaaa", 7, None),
        chapter("c2c2c2c2c2c2c2c2c2c2c2c2", "aaaaaaaaaaaaaaaaaaaaaaaa", 7, None),
    ]);
    let found = service
        .find_by_novel_and_number("aaaaaaaaaaaaaaaaaaaaaaaa", 7)
        .expect("the chapter exists");
    assert_eq!(found.id, Some("c1c1c1c1c1c1c1c1c1c1c1c1".to_string()));
    assert!(service.find_by_novel_and_number("aaaaaaaaaaaaaaaaaaaaaaaa", 9).is_none());
}

#[test]
fn chapter_content_projection_keeps_absence() {
    let service = ChapterCrudService::new(vec![
        chapter("c1c1c1c1c1c1c1c1c1c1c1c1", "aaaaaaaaaaaaaaaaaaaaaaaa", 1, Some("text")),
        chapter("c2c2c2c2c2c2c2c2c2c2c2c2", "aaaaaaaaaaaaaaaaaaaaaaaa", 2, None),
    ]);
    assert_eq!(
        service.get_chapter_content("c1c1c1c1c1c1c1c1c1c1c1c1"),
        Some(Some("text".to_string()))
    );
    assert_eq!(service.get_chapter_content("c2c2c2c2c2c2c2c2c2c2c2c2"), Some(None));
    assert_eq!(service.get_chapter_content("dddddddddddddddddddddddd"), None);
}

#[test]
fn character_by_novel_and_name_is_scoped_to_the_novel() {
    let service = CharacterCrudService::new(vec![
        character("aaaaaaaaaaaaaaaaaaaaaaaa", "Alice", "hero"),
        character("bbbbbbbbbbbbbbbbbbbbbbbb", "Alicia", "foe"),
    ]);
    let found = service
        .find_by_novel_and_name("aaaaaaaaaaaaaaaaaaaaaaaa", "ali")
        .expect("name matches within the novel");
    assert_eq!(found.name, "Alice");
    assert!(service.find_by_novel_and_name("cccccccccccccccccccccccc", "ali").is_none());
}

#[test]
fn characters_by_role_is_exact() {
    let service = CharacterCrudService::new(vec![
        character("aaaaaaaaaaaaaaaaaaaaaaaa", "Alice", "hero"),
        character("aaaaaaaaaaaaaaaaaaaaaaaa", "Bob", "Hero"),
    ]);
    let found = service.find_by_novel_and_role("aaaaaaaaaaaaaaaaaaaaaaaa", "hero");
    assert_eq!(found.len(), 1);
    assert_eq!(found[0].name, "Alice");
}

#[test]
fn qa_lookups_filter_by_novel_tags_and_text() {
    let service = QACrudService::new(vec![
        qa(Some("aaaaaaaaaaaaaaaaaaaaaaaa"), "What is magic?", "An art.", &["lore"]),
        qa(None, "Where is the sea?", "East of the MAGIC woods.", &["geo"]),
    ]);
    assert_eq!(service.find_by_novel_id("aaaaaaaaaaaaaaaaaaaaaaaa").len(), 1);
    let tagged = service.find_by_tags(&vec!["geo".to_string()]);
    assert_eq!(tagged.len(), 1);
    assert_eq!(tagged[0].question, "Where is the sea?");
    let text = service.search_text("magic");
    assert_eq!(text.len(), 2);
}
