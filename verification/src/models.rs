//! Domain records held by the document store, and the structured search
//! specification produced by the query parser.
//!
//! Record identifiers are carried as plain strings (the store's
//! 24-hex-character style); the store itself decides which strings are
//! well-formed identifiers.

use vstd::prelude::*;

verus! {

/// Narrative work metadata, the compact representation.
#[derive(Clone, Debug)]
pub struct Novel {
    pub id: Option<String>,
    pub title: String,
    pub author: String,
    pub summary: String,
    pub tags: Vec<String>,
    pub metadata: Option<NovelMetadata>,
}

/// Extended metadata, separated to keep the main queries light.
#[derive(Clone, Debug)]
pub struct NovelMetadata {
    pub publication_date: Option<String>,
    pub genre: Vec<String>,
    pub word_count: Option<u32>,
    pub language: Option<String>,
}

/// A chapter: summary and key points, with the long-form text optional.
#[derive(Clone, Debug)]
pub struct Chapter {
    pub id: Option<String>,
    pub novel_id: String,
    pub number: u32,
    pub title: String,
    pub summary: String,
    pub key_points: Vec<String>,
    pub content: Option<String>,
}

/// A character, with key attributes and relationships.
#[derive(Clone, Debug)]
pub struct Character {
    pub id: Option<String>,
    pub novel_id: String,
    pub name: String,
    pub role: String,
    pub description: String,
    pub key_traits: Vec<String>,
    pub relationships: Vec<Relationship>,
}

/// A relationship edge, denormalized by name for efficiency.
#[derive(Clone, Debug)]
pub struct Relationship {
    pub character_id: Option<String>,
    pub character_name: String,
    pub relationship_type: String,
}

/// A knowledge-base question/answer entry.
#[derive(Clone, Debug)]
pub struct QA {
    pub id: Option<String>,
    pub novel_id: Option<String>,
    pub question: String,
    pub answer: String,
    pub tags: Vec<String>,
}

/// The structured search specification produced once per query,
/// consumed by the search executor.
#[derive(Clone, Debug)]
pub struct SearchParams {
    pub collection: String,
    pub query_type: String,
    pub keywords: Vec<String>,
    pub filters: Option<SearchFilters>,
    pub limit: Option<u32>,
}

/// Optional structural filters extracted from the query text.
#[derive(Clone, Debug)]
pub struct SearchFilters {
    pub novel_id: Option<String>,
    pub character_name: Option<String>,
    pub tags: Option<Vec<String>>,
}

/// The records carried by a search response, one variant per
/// collection.
#[derive(Clone, Debug)]
pub enum ResultRecords {
    Novels(Vec<Novel>),
    Chapters(Vec<Chapter>),
    Characters(Vec<Character>),
    QaEntries(Vec<QA>),
}

/// A bounded, token-annotated search response.
#[derive(Clone, Debug)]
pub struct MCPResponse {
    pub status: String,
    pub data: ResultRecords,
    pub metadata: ResponseMetadata,
}

/// Response annotations: token estimate, timing, pagination.
///
/// `next_page_token` is a best-effort, time-derived marker, not a
/// resumable cursor.
#[derive(Clone, Debug)]
pub struct ResponseMetadata {
    pub token_count: Option<u32>,
    pub query_time_ms: u64,
    pub has_more: bool,
    pub next_page_token: Option<String>,
}

/// The four result sets of a combined search, one per collection.
#[derive(Clone, Debug)]
pub struct SearchAllResults {
    pub novels: Vec<Novel>,
    pub chapters: Vec<Chapter>,
    pub characters: Vec<Character>,
    pub qa_entries: Vec<QA>,
}

/// Spec-level view of a novel.
pub struct NovelV {
    pub id: Option<Seq<char>>,
    pub title: Seq<char>,
    pub author: Seq<char>,
    pub summary: Seq<char>,
    pub tags: Seq<Seq<char>>,
    pub metadata: Option<NovelMetadataV>,
}

/// Spec-level view of extended novel metadata.
pub struct NovelMetadataV {
    pub publication_date: Option<Seq<char>>,
    pub genre: Seq<Seq<char>>,
    pub word_count: Option<u32>,
    pub language: Option<Seq<char>>,
}

/// Spec-level view of a chapter.
pub struct ChapterV {
    pub id: Option<Seq<char>>,
    pub novel_id: Seq<char>,
    pub number: u32,
    pub title: Seq<char>,
    pub summary: Seq<char>,
    pub key_points: Seq<Seq<char>>,
    pub content: Option<Seq<char>>,
}

/// Spec-level view of a character.
pub struct CharacterV {
    pub id: Option<Seq<char>>,
    pub novel_id: Seq<char>,
    pub name: Seq<char>,
    pub role: Seq<char>,
    pub description: Seq<char>,
    pub key_traits: Seq<Seq<char>>,
    pub relationships: Seq<RelationshipV>,
}

/// Spec-level view of a relationship edge.
pub struct RelationshipV {
    pub character_id: Option<Seq<char>>,
    pub character_name: Seq<char>,
    pub relationship_type: Seq<char>,
}

/// Spec-level view of a question/answer entry.
pub struct QAV {
    pub id: Option<Seq<char>>,
    pub novel_id: Option<Seq<char>>,
    pub question: Seq<char>,
    pub answer: Seq<char>,
    pub tags: Seq<Seq<char>>,
}

/// Spec-level view of a search specification.
pub struct SearchParamsV {
    pub collection: Seq<char>,
    pub query_type: Seq<char>,
    pub keywords: Seq<Seq<char>>,
    pub filters: Option<SearchFiltersV>,
    pub limit: Option<u32>,
}

/// Spec-level view of the structural filters.
pub struct SearchFiltersV {
    pub novel_id: Option<Seq<char>>,
    pub character_name: Option<Seq<char>>,
    pub tags: Option<Seq<Seq<char>>>,
}

/// View of an optional string.
pub open spec fn opt_str_view(o: Option<String>) -> Option<Seq<char>> {
    match o {
        Some(s) => Some(s@),
        None => None,
    }
}

impl View for NovelMetadata {
    type V = NovelMetadataV;

    open spec fn view(&self) -> NovelMetadataV {
        NovelMetadataV {
            publication_date: opt_str_view(self.publication_date),
            genre: self.genre.deep_view(),
            word_count: self.word_count,
            language: opt_str_view(self.language),
        }
    }
}

impl DeepView for NovelMetadata {
    type V = NovelMetadataV;

    open spec fn deep_view(&self) -> NovelMetadataV {
        self.view()
    }
}

impl View for Novel {
    type V = NovelV;

    open spec fn view(&self) -> NovelV {
        NovelV {
            id: opt_str_view(self.id),
            title: self.title@,
            author: self.author@,
            summary: self.summary@,
            tags: self.tags.deep_view(),
            metadata: match self.metadata {
                Some(m) => Some(m@),
                None => None,
            },
        }
    }
}

impl DeepView for Novel {
    type V = NovelV;

    open spec fn deep_view(&self) -> NovelV {
        self.view()
    }
}

impl View for Chapter {
    type V = ChapterV;

    open spec fn view(&self) -> ChapterV {
        ChapterV {
            id: opt_str_view(self.id),
            novel_id: self.novel_id@,
            number: self.number,
            title: self.title@,
            summary: self.summary@,
            key_points: self.key_points.deep_view(),
            content: opt_str_view(self.content),
        }
    }
}

impl DeepView for Chapter {
    type V = ChapterV;

    open spec fn deep_view(&self) -> ChapterV {
        self.view()
    }
}

impl View for Relationship {
    type V = RelationshipV;

    open spec fn view(&self) -> RelationshipV {
        RelationshipV {
            character_id: opt_str_view(self.character_id),
            character_name: self.character_name@,
            relationship_type: self.relationship_type@,
        }
    }
}

impl DeepView for Relationship {
    type V = RelationshipV;

    open spec fn deep_view(&self) -> RelationshipV {
        self.view()
    }
}

impl View for Character {
    type V = CharacterV;

    open spec fn view(&self) -> CharacterV {
        CharacterV {
            id: opt_str_view(self.id),
            novel_id: self.novel_id@,
            name: self.name@,
            role: self.role@,
            description: self.description@,
            key_traits: self.key_traits.deep_view(),
            relationships: self.relationships.deep_view(),
        }
    }
}

impl DeepView for Character {
    type V = CharacterV;

    open spec fn deep_view(&self) -> CharacterV {
        self.view()
    }
}

impl View for QA {
    type V = QAV;

    open spec fn view(&self) -> QAV {
        QAV {
            id: opt_str_view(self.id),
            novel_id: opt_str_view(self.novel_id),
            question: self.question@,
            answer: self.answer@,
            tags: self.tags.deep_view(),
        }
    }
}

impl DeepView for QA {
    type V = QAV;

    open spec fn deep_view(&self) -> QAV {
        self.view()
    }
}

impl View for SearchFilters {
    type V = SearchFiltersV;

    open spec fn view(&self) -> SearchFiltersV {
        SearchFiltersV {
            novel_id: opt_str_view(self.novel_id),
            character_name: opt_str_view(self.character_name),
            tags: match self.tags {
                Some(ts) => Some(ts.deep_view()),
                None => None,
            },
        }
    }
}

impl View for SearchParams {
    type V = SearchParamsV;

    open spec fn view(&self) -> SearchParamsV {
        SearchParamsV {
            collection: self.collection@,
            query_type: self.query_type@,
            keywords: self.keywords.deep_view(),
            filters: match self.filters {
                Some(f) => Some(f@),
                None => None,
            },
            limit: self.limit,
        }
    }
}

/// Clones a string vector, preserving its view.
pub fn clone_string_vec(v: &Vec<String>) -> (r: Vec<String>)
    ensures
        r@ == v@,
{
    let mut r: Vec<String> = Vec::new();
    let mut i: usize = 0;
    while i < v.len()
        invariant
            i <= v@.len(),
            r@ == v@.subrange(0, i as int),
        decreases v@.len() - i,
    {
        r.push(v[i].clone());
        assert(r@ =~= v@.subrange(0, i + 1 as int));
        i = i + 1;
    }
    assert(v@.subrange(0, v@.len() as int) =~= v@);
    r
}

/// Clones an optional string, preserving its view.
pub fn clone_opt_string(o: &Option<String>) -> (r: Option<String>)
    ensures
        r == *o,
{
    match o {
        Some(s) => Some(s.clone()),
        None => None,
    }
}

/// Clones a novel, preserving its view.
pub fn clone_novel(n: &Novel) -> (r: Novel)
    ensures
        r@ == n@,
{
    let metadata = match &n.metadata {
        Some(m) => Some(NovelMetadata {
            publication_date: clone_opt_string(&m.publication_date),
            genre: clone_string_vec(&m.genre),
            word_count: m.word_count,
            language: clone_opt_string(&m.language),
        }),
        None => None,
    };
    let r = Novel {
        id: clone_opt_string(&n.id),
        title: n.title.clone(),
        author: n.author.clone(),
        summary: n.summary.clone(),
        tags: clone_string_vec(&n.tags),
        metadata,
    };
    r
}

/// Clones a chapter, preserving its view; `keep_content` decides whether
/// the long-form text is carried over or stripped.
pub fn clone_chapter(c: &Chapter, keep_content: bool) -> (r: Chapter)
    ensures
        keep_content ==> r@ == c@,
        !keep_content ==> r@ == (ChapterV { content: None, ..c@ }),
{
    let content = if keep_content {
        clone_opt_string(&c.content)
    } else {
        None
    };
    Chapter {
        id: clone_opt_string(&c.id),
        novel_id: c.novel_id.clone(),
        number: c.number,
        title: c.title.clone(),
        summary: c.summary.clone(),
        key_points: clone_string_vec(&c.key_points),
        content,
    }
}

/// Clones a character, preserving its view.
pub fn clone_character(c: &Character) -> (r: Character)
    ensures
        r@ == c@,
{
    let mut relationships: Vec<Relationship> = Vec::new();
    let mut i: usize = 0;
    while i < c.relationships.len()
        invariant
            i <= c.relationships@.len(),
            relationships@.len() == i,
            forall|j: int| 0 <= j < i ==> #[trigger] relationships@[j].deep_view()
                == c.relationships@[j].deep_view(),
        decreases c.relationships@.len() - i,
    {
        let e = &c.relationships[i];
        let rel = Relationship {
            character_id: clone_opt_string(&e.character_id),
            character_name: e.character_name.clone(),
            relationship_type: e.relationship_type.clone(),
        };
        proof {
            assert(rel.deep_view() == c.relationships@[i as int].deep_view());
        }
        relationships.push(rel);
        i = i + 1;
    }
    proof {
        assert forall|j: int| 0 <= j < relationships@.len()
            implies relationships.deep_view()[j] == c.relationships.deep_view()[j] by {
            assert(relationships@[j].deep_view() == c.relationships@[j].deep_view());
        }
        assert(relationships.deep_view() =~= c.relationships.deep_view());
    }
    Character {
        id: clone_opt_string(&c.id),
        novel_id: c.novel_id.clone(),
        name: c.name.clone(),
        role: c.role.clone(),
        description: c.description.clone(),
        key_traits: clone_string_vec(&c.key_traits),
        relationships,
    }
}

/// Clones a question/answer entry, preserving its view.
pub fn clone_qa(q: &QA) -> (r: QA)
    ensures
        r@ == q@,
{
    QA {
        id: clone_opt_string(&q.id),
        novel_id: clone_opt_string(&q.novel_id),
        question: q.question.clone(),
        answer: q.answer.clone(),
        tags: clone_string_vec(&q.tags),
    }
}

} // verus!
