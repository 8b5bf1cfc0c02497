//! Typed per-collection query services: the direct record lookups the
//! plain CRUD surface is built on.
//!
//! Each service owns its collection and answers the same filtered
//! queries the document store would: case-insensitive substring
//! matches for text fields, exact matches for identifiers and roles,
//! any-overlap for tag lists.

use vstd::prelude::*;

use crate::db_service::kw_in;
use crate::db_service::tags_overlap;
use crate::models::Chapter;
use crate::models::ChapterV;
use crate::models::Character;
use crate::models::CharacterV;
use crate::models::Novel;
use crate::models::NovelV;
use crate::models::QA;
use crate::models::QAV;
use crate::models::clone_chapter;
use crate::models::clone_character;
use crate::models::clone_novel;
use crate::models::clone_opt_string;
use crate::models::clone_qa;
use crate::text::chars_vec;
use crate::text::contains_chars;
use crate::text::lower_chars;
use crate::text::str_eq;

verus! {

/// The novels whose title holds `title`, case-insensitively.
pub open spec fn novels_with_title(ns: Seq<NovelV>, title: Seq<char>) -> Seq<NovelV>
    decreases ns.len(),
{
    if ns.len() == 0 {
        seq![]
    } else {
        let rest = novels_with_title(ns.drop_last(), title);
        if kw_in(ns.last().title, title) {
            rest.push(ns.last())
        } else {
            rest
        }
    }
}

/// The novels whose author holds `author`, case-insensitively.
pub open spec fn novels_with_author(ns: Seq<NovelV>, author: Seq<char>) -> Seq<NovelV>
    decreases ns.len(),
{
    if ns.len() == 0 {
        seq![]
    } else {
        let rest = novels_with_author(ns.drop_last(), author);
        if kw_in(ns.last().author, author) {
            rest.push(ns.last())
        } else {
            rest
        }
    }
}

/// The novels sharing at least one of the wanted tags.
pub open spec fn novels_with_tags(ns: Seq<NovelV>, wanted: Seq<Seq<char>>) -> Seq<NovelV>
    decreases ns.len(),
{
    if ns.len() == 0 {
        seq![]
    } else {
        let rest = novels_with_tags(ns.drop_last(), wanted);
        if tags_overlap(ns.last().tags, wanted) {
            rest.push(ns.last())
        } else {
            rest
        }
    }
}

/// The chapters of one work, by exact identifier.
pub open spec fn chapters_of_novel(cs: Seq<ChapterV>, novel_id: Seq<char>) -> Seq<ChapterV>
    decreases cs.len(),
{
    if cs.len() == 0 {
        seq![]
    } else {
        let rest = chapters_of_novel(cs.drop_last(), novel_id);
        if cs.last().novel_id == novel_id {
            rest.push(cs.last())
        } else {
            rest
        }
    }
}

/// Index of the first chapter of the work bearing `number`, from `i`.
pub open spec fn chapter_number_index(cs: Seq<ChapterV>, novel_id: Seq<char>, number: u32,
    i: int) -> int
    decreases cs.len() - i,
{
    if i < 0 || i >= cs.len() {
        -1
    } else if cs[i].novel_id == novel_id && cs[i].number == number {
        i
    } else {
        chapter_number_index(cs, novel_id, number, i + 1)
    }
}

/// Index of the first chapter bearing the identifier, from `i`.
pub open spec fn chapter_id_index(cs: Seq<ChapterV>, id: Seq<char>, i: int) -> int
    decreases cs.len() - i,
{
    if i < 0 || i >= cs.len() {
        -1
    } else if cs[i].id == Some(id) {
        i
    } else {
        chapter_id_index(cs, id, i + 1)
    }
}

/// The characters of one work, by exact identifier.
pub open spec fn characters_of_novel(cs: Seq<CharacterV>, novel_id: Seq<char>)
    -> Seq<CharacterV>
    decreases cs.len(),
{
    if cs.len() == 0 {
        seq![]
    } else {
        let rest = characters_of_novel(cs.drop_last(), novel_id);
        if cs.last().novel_id == novel_id {
            rest.push(cs.last())
        } else {
            rest
        }
    }
}

/// Index of the first character of the work whose name holds `name`,
/// case-insensitively, from `i`.
pub open spec fn character_name_index(cs: Seq<CharacterV>, novel_id: Seq<char>,
    name: Seq<char>, i: int) -> int
    decreases cs.len() - i,
{
    if i < 0 || i >= cs.len() {
        -1
    } else if cs[i].novel_id == novel_id && kw_in(cs[i].name, name) {
        i
    } else {
        character_name_index(cs, novel_id, name, i + 1)
    }
}

/// The characters of one work playing exactly `role`.
pub open spec fn characters_with_role(cs: Seq<CharacterV>, novel_id: Seq<char>,
    role: Seq<char>) -> Seq<CharacterV>
    decreases cs.len(),
{
    if cs.len() == 0 {
        seq![]
    } else {
        let rest = characters_with_role(cs.drop_last(), novel_id, role);
        if cs.last().novel_id == novel_id && cs.last().role == role {
            rest.push(cs.last())
        } else {
            rest
        }
    }
}

/// The entries of one work, by exact identifier.
pub open spec fn qa_of_novel(qs: Seq<QAV>, novel_id: Seq<char>) -> Seq<QAV>
    decreases qs.len(),
{
    if qs.len() == 0 {
        seq![]
    } else {
        let rest = qa_of_novel(qs.drop_last(), novel_id);
        if qs.last().novel_id == Some(novel_id) {
            rest.push(qs.last())
        } else {
            rest
        }
    }
}

/// The entries sharing at least one of the wanted tags.
pub open spec fn qa_with_tags(qs: Seq<QAV>, wanted: Seq<Seq<char>>) -> Seq<QAV>
    decreases qs.len(),
{
    if qs.len() == 0 {
        seq![]
    } else {
        let rest = qa_with_tags(qs.drop_last(), wanted);
        if tags_overlap(qs.last().tags, wanted) {
            rest.push(qs.last())
        } else {
            rest
        }
    }
}

/// The entries whose question or answer holds the query text,
/// case-insensitively.
pub open spec fn qa_with_text(qs: Seq<QAV>, query: Seq<char>) -> Seq<QAV>
    decreases qs.len(),
{
    if qs.len() == 0 {
        seq![]
    } else {
        let rest = qa_with_text(qs.drop_last(), query);
        if kw_in(qs.last().question, query) || kw_in(qs.last().answer, query) {
            rest.push(qs.last())
        } else {
            rest
        }
    }
}

/// Case-insensitive containment of a pattern in a field.
fn field_contains_ci(field: &str, pattern: &str) -> (r: bool)
    ensures
        r == kw_in(field@, pattern@),
{
    let f = chars_vec(field);
    let fl = lower_chars(&f);
    let p = chars_vec(pattern);
    let pl = lower_chars(&p);
    contains_chars(&fl, &pl)
}

/// Exact tag-overlap test on owned tag lists.
fn tags_overlap_exec(tags: &Vec<String>, wanted: &Vec<String>) -> (r: bool)
    ensures
        r == tags_overlap(tags.deep_view(), wanted.deep_view()),
{
    let mut i: usize = 0;
    while i < tags.len()
        invariant
            i <= tags@.len(),
            forall|a: int, b: int| 0 <= a < i && 0 <= b < wanted.deep_view().len()
                ==> #[trigger] tags.deep_view()[a] != #[trigger] wanted.deep_view()[b],
        decreases tags@.len() - i,
    {
        let mut j: usize = 0;
        while j < wanted.len()
            invariant
                i < tags@.len(),
                j <= wanted@.len(),
                forall|b: int| 0 <= b < j ==> tags.deep_view()[i as int]
                    != #[trigger] wanted.deep_view()[b],
                forall|a: int, b: int| 0 <= a < i && 0 <= b < wanted.deep_view().len()
                    ==> #[trigger] tags.deep_view()[a] != #[trigger] wanted.deep_view()[b],
            decreases wanted@.len() - j,
        {
            if str_eq(tags[i].as_str(), wanted[j].as_str()) {
                assert(tags.deep_view()[i as int] == wanted.deep_view()[j as int]);
                return true;
            }
            j = j + 1;
        }
        i = i + 1;
    }
    false
}

/// Direct novel lookups.
pub struct NovelCrudService {
    pub novels: Vec<Novel>,
}

impl NovelCrudService {
    /// Wraps a novel collection.
    pub fn new(novels: Vec<Novel>) -> (r: NovelCrudService)
        ensures
            r.novels == novels,
    {
        NovelCrudService { novels }
    }

    /// Finds novels by title, case-insensitively.
    pub fn find_by_title(&self, title: &str) -> (r: Vec<Novel>)
        ensures
            r.deep_view() == novels_with_title(self.novels.deep_view(), title@),
    {
        let ghost dv = self.novels.deep_view();
        proof {
            assert(dv.subrange(0, 0) =~= Seq::<NovelV>::empty());
        }
        let mut r: Vec<Novel> = Vec::new();
        let mut i: usize = 0;
        while i < self.novels.len()
            invariant
                i <= self.novels@.len(),
                dv == self.novels.deep_view(),
                r.deep_view() == novels_with_title(dv.subrange(0, i as int), title@),
            decreases self.novels@.len() - i,
        {
            proof {
                assert(dv.subrange(0, i + 1 as int).drop_last() =~= dv.subrange(0, i as int));
                assert(dv.subrange(0, i + 1 as int).last() == dv[i as int]);
                assert(dv[i as int] == self.novels@[i as int].deep_view());
            }
            if field_contains_ci(self.novels[i].title.as_str(), title) {
                let ghost old_dv = r.deep_view();
                r.push(clone_novel(&self.novels[i]));
                proof {
                    assert(r.deep_view() =~~= old_dv.push(dv[i as int]));
                }
            }
            i = i + 1;
        }
        proof {
            assert(dv.subrange(0, dv.len() as int) =~= dv);
        }
        r
    }

    /// Finds novels by author, case-insensitively.
    pub fn find_by_author(&self, author: &str) -> (r: Vec<Novel>)
        ensures
            r.deep_view() == novels_with_author(self.novels.deep_view(), author@),
    {
        let ghost dv = self.novels.deep_view();
        proof {
            assert(dv.subrange(0, 0) =~= Seq::<NovelV>::empty());
        }
        let mut r: Vec<Novel> = Vec::new();
        let mut i: usize = 0;
        while i < self.novels.len()
            invariant
                i <= self.novels@.len(),
                dv == self.novels.deep_view(),
                r.deep_view() == novels_with_author(dv.subrange(0, i as int), author@),
            decreases self.novels@.len() - i,
        {
            proof {
                assert(dv.subrange(0, i + 1 as int).drop_last() =~= dv.subrange(0, i as int));
                assert(dv.subrange(0, i + 1 as int).last() == dv[i as int]);
                assert(dv[i as int] == self.novels@[i as int].deep_view());
            }
            if field_contains_ci(self.novels[i].author.as_str(), author) {
                let ghost old_dv = r.deep_view();
                r.push(clone_novel(&self.novels[i]));
                proof {
                    assert(r.deep_view() =~~= old_dv.push(dv[i as int]));
                }
            }
            i = i + 1;
        }
        proof {
            assert(dv.subrange(0, dv.len() as int) =~= dv);
        }
        r
    }

    /// Finds novels sharing any of the given tags.
    pub fn find_by_tags(&self, tags: &Vec<String>) -> (r: Vec<Novel>)
        ensures
            r.deep_view() == novels_with_tags(self.novels.deep_view(), tags.deep_view()),
    {
        let ghost dv = self.novels.deep_view();
        proof {
            assert(dv.subrange(0, 0) =~= Seq::<NovelV>::empty());
        }
        let mut r: Vec<Novel> = Vec::new();
        let mut i: usize = 0;
        while i < self.novels.len()
            invariant
                i <= self.novels@.len(),
                dv == self.novels.deep_view(),
                r.deep_view() == novels_with_tags(dv.subrange(0, i as int),
                    tags.deep_view()),
            decreases self.novels@.len() - i,
        {
            proof {
                assert(dv.subrange(0, i + 1 as int).drop_last() =~= dv.subrange(0, i as int));
                assert(dv.subrange(0, i + 1 as int).last() == dv[i as int]);
                assert(dv[i as int] == self.novels@[i as int].deep_view());
            }
            if tags_overlap_exec(&self.novels[i].tags, tags) {
                let ghost old_dv = r.deep_view();
                r.push(clone_novel(&self.novels[i]));
                proof {
                    assert(r.deep_view() =~~= old_dv.push(dv[i as int]));
                }
            }
            i = i + 1;
        }
        proof {
            assert(dv.subrange(0, dv.len() as int) =~= dv);
        }
        r
    }
}

/// Direct chapter lookups.
pub struct ChapterCrudService {
    pub chapters: Vec<Chapter>,
}

impl ChapterCrudService {
    /// Wraps a chapter collection.
    pub fn new(chapters: Vec<Chapter>) -> (r: ChapterCrudService)
        ensures
            r.chapters == chapters,
    {
        ChapterCrudService { chapters }
    }

    /// Finds the chapters of one work.
    pub fn find_by_novel_id(&self, novel_id: &str) -> (r: Vec<Chapter>)
        ensures
            r.deep_view() == chapters_of_novel(self.chapters.deep_view(), novel_id@),
    {
        let ghost dv = self.chapters.deep_view();
        proof {
            assert(dv.subrange(0, 0) =~= Seq::<ChapterV>::empty());
        }
        let mut r: Vec<Chapter> = Vec::new();
        let mut i: usize = 0;
        while i < self.chapters.len()
            invariant
                i <= self.chapters@.len(),
                dv == self.chapters.deep_view(),
                r.deep_view() == chapters_of_novel(dv.subrange(0, i as int), novel_id@),
            decreases self.chapters@.len() - i,
        {
            proof {
                assert(dv.subrange(0, i + 1 as int).drop_last() =~= dv.subrange(0, i as int));
                assert(dv.subrange(0, i + 1 as int).last() == dv[i as int]);
                assert(dv[i as int] == self.chapters@[i as int].deep_view());
            }
            if str_eq(self.chapters[i].novel_id.as_str(), novel_id) {
                let ghost old_dv = r.deep_view();
                r.push(clone_chapter(&self.chapters[i], true));
                proof {
                    assert(r.deep_view() =~~= old_dv.push(dv[i as int]));
                }
            }
            i = i + 1;
        }
        proof {
            assert(dv.subrange(0, dv.len() as int) =~= dv);
        }
        r
    }

    /// Finds the first chapter of the work bearing `chapter_number`.
    pub fn find_by_novel_and_number(&self, novel_id: &str, chapter_number: u32)
        -> (r: Option<Chapter>)
        ensures
            ({
                let dv = self.chapters.deep_view();
                let idx = chapter_number_index(dv, novel_id@, chapter_number, 0);
                match r {
                    Some(c) => idx >= 0 && c@ == dv[idx],
                    None => idx < 0,
                }
            }),
    {
        let ghost dv = self.chapters.deep_view();
        let mut i: usize = 0;
        while i < self.chapters.len()
            invariant
                i <= self.chapters@.len(),
                dv == self.chapters.deep_view(),
                chapter_number_index(dv, novel_id@, chapter_number, 0)
                    == chapter_number_index(dv, novel_id@, chapter_number, i as int),
            decreases self.chapters@.len() - i,
        {
            let c = &self.chapters[i];
            proof {
                assert(dv[i as int] == self.chapters@[i as int].deep_view());
            }
            if str_eq(c.novel_id.as_str(), novel_id) && c.number == chapter_number {
                assert(chapter_number_index(dv, novel_id@, chapter_number, 0) == i as int);
                return Some(clone_chapter(c, true));
            }
            i = i + 1;
        }
        None
    }

    /// Reads the stored long-form text of one chapter; `None` when the
    /// chapter is missing, and the chapter's own absent text otherwise.
    pub fn get_chapter_content(&self, id: &str) -> (r: Option<Option<String>>)
        ensures
            ({
                let dv = self.chapters.deep_view();
                let idx = chapter_id_index(dv, id@, 0);
                match r {
                    Some(content) => idx >= 0 && crate::models::opt_str_view(content)
                        == dv[idx].content,
                    None => idx < 0,
                }
            }),
    {
        let ghost dv = self.chapters.deep_view();
        let mut i: usize = 0;
        while i < self.chapters.len()
            invariant
                i <= self.chapters@.len(),
                dv == self.chapters.deep_view(),
                chapter_id_index(dv, id@, 0) == chapter_id_index(dv, id@, i as int),
            decreases self.chapters@.len() - i,
        {
            let c = &self.chapters[i];
            proof {
                assert(dv[i as int] == self.chapters@[i as int].deep_view());
            }
            let matches_id = match &c.id {
                Some(s) => str_eq(s.as_str(), id),
                None => false,
            };
            if matches_id {
                assert(chapter_id_index(dv, id@, 0) == i as int);
                return Some(clone_opt_string(&c.content));
            }
            i = i + 1;
        }
        None
    }
}

/// Direct character lookups.
pub struct CharacterCrudService {
    pub characters: Vec<Character>,
}

impl CharacterCrudService {
    /// Wraps a character collection.
    pub fn new(characters: Vec<Character>) -> (r: CharacterCrudService)
        ensures
            r.characters == characters,
    {
        CharacterCrudService { characters }
    }

    /// Finds the characters of one work.
    pub fn find_by_novel_id(&self, novel_id: &str) -> (r: Vec<Character>)
        ensures
            r.deep_view() == characters_of_novel(self.characters.deep_view(), novel_id@),
    {
        let ghost dv = self.characters.deep_view();
        proof {
            assert(dv.subrange(0, 0) =~= Seq::<CharacterV>::empty());
        }
        let mut r: Vec<Character> = Vec::new();
        let mut i: usize = 0;
        while i < self.characters.len()
            invariant
                i <= self.characters@.len(),
                dv == self.characters.deep_view(),
                r.deep_view() == characters_of_novel(dv.subrange(0, i as int), novel_id@),
            decreases self.characters@.len() - i,
        {
            proof {
                assert(dv.subrange(0, i + 1 as int).drop_last() =~= dv.subrange(0, i as int));
                assert(dv.subrange(0, i + 1 as int).last() == dv[i as int]);
                assert(dv[i as int] == self.characters@[i as int].deep_view());
            }
            if str_eq(self.characters[i].novel_id.as_str(), novel_id) {
                let ghost old_dv = r.deep_view();
                r.push(clone_character(&self.characters[i]));
                proof {
                    assert(r.deep_view() =~~= old_dv.push(dv[i as int]));
                }
            }
            i = i + 1;
        }
        proof {
            assert(dv.subrange(0, dv.len() as int) =~= dv);
        }
        r
    }

    /// Finds the first character of the work whose name holds `name`,
    /// case-insensitively.
    pub fn find_by_novel_and_name(&self, novel_id: &str, name: &str)
        -> (r: Option<Character>)
        ensures
            ({
                let dv = self.characters.deep_view();
                let idx = character_name_index(dv, novel_id@, name@, 0);
                match r {
                    Some(c) => idx >= 0 && c@ == dv[idx],
                    None => idx < 0,
                }
            }),
    {
        let ghost dv = self.characters.deep_view();
        let mut i: usize = 0;
        while i < self.characters.len()
            invariant
                i <= self.characters@.len(),
                dv == self.characters.deep_view(),
                character_name_index(dv, novel_id@, name@, 0)
                    == character_name_index(dv, novel_id@, name@, i as int),
            decreases self.characters@.len() - i,
        {
            let c = &self.characters[i];
            proof {
                assert(dv[i as int] == self.characters@[i as int].deep_view());
            }
            if str_eq(c.novel_id.as_str(), novel_id)
                && field_contains_ci(c.name.as_str(), name) {
                assert(character_name_index(dv, novel_id@, name@, 0) == i as int);
                return Some(clone_character(c));
            }
            i = i + 1;
        }
        None
    }

    /// Finds the characters of the work playing exactly `role`.
    pub fn find_by_novel_and_role(&self, novel_id: &str, role: &str) -> (r: Vec<Character>)
        ensures
            r.deep_view() == characters_with_role(self.characters.deep_view(), novel_id@,
                role@),
    {
        let ghost dv = self.characters.deep_view();
        proof {
            assert(dv.subrange(0, 0) =~= Seq::<CharacterV>::empty());
        }
        let mut r: Vec<Character> = Vec::new();
        let mut i: usize = 0;
        while i < self.characters.len()
            invariant
                i <= self.characters@.len(),
                dv == self.characters.deep_view(),
                r.deep_view() == characters_with_role(dv.subrange(0, i as int), novel_id@,
                    role@),
            decreases self.characters@.len() - i,
        {
            proof {
                assert(dv.subrange(0, i + 1 as int).drop_last() =~= dv.subrange(0, i as int));
                assert(dv.subrange(0, i + 1 as int).last() == dv[i as int]);
                assert(dv[i as int] == self.characters@[i as int].deep_view());
            }
            if str_eq(self.characters[i].novel_id.as_str(), novel_id)
                && str_eq(self.characters[i].role.as_str(), role) {
                let ghost old_dv = r.deep_view();
                r.push(clone_character(&self.characters[i]));
                proof {
                    assert(r.deep_view() =~~= old_dv.push(dv[i as int]));
                }
            }
            i = i + 1;
        }
        proof {
            assert(dv.subrange(0, dv.len() as int) =~= dv);
        }
        r
    }
}

/// Direct question/answer lookups.
pub struct QACrudService {
    pub qa_entries: Vec<QA>,
}

impl QACrudService {
    /// Wraps a question/answer collection.
    pub fn new(qa_entries: Vec<QA>) -> (r: QACrudService)
        ensures
            r.qa_entries == qa_entries,
    {
        QACrudService { qa_entries }
    }

    /// Finds the entries of one work.
    pub fn find_by_novel_id(&self, novel_id: &str) -> (r: Vec<QA>)
        ensures
            r.deep_view() == qa_of_novel(self.qa_entries.deep_view(), novel_id@),
    {
        let ghost dv = self.qa_entries.deep_view();
        proof {
            assert(dv.subrange(0, 0) =~= Seq::<QAV>::empty());
        }
        let mut r: Vec<QA> = Vec::new();
        let mut i: usize = 0;
        while i < self.qa_entries.len()
            invariant
                i <= self.qa_entries@.len(),
                dv == self.qa_entries.deep_view(),
                r.deep_view() == qa_of_novel(dv.subrange(0, i as int), novel_id@),
            decreases self.qa_entries@.len() - i,
        {
            proof {
                assert(dv.subrange(0, i + 1 as int).drop_last() =~= dv.subrange(0, i as int));
                assert(dv.subrange(0, i + 1 as int).last() == dv[i as int]);
                assert(dv[i as int] == self.qa_entries@[i as int].deep_view());
            }
            let matches_id = match &self.qa_entries[i].novel_id {
                Some(s) => str_eq(s.as_str(), novel_id),
                None => false,
            };
            if matches_id {
                let ghost old_dv = r.deep_view();
                r.push(clone_qa(&self.qa_entries[i]));
                proof {
                    assert(r.deep_view() =~~= old_dv.push(dv[i as int]));
                }
            }
            i = i + 1;
        }
        proof {
            assert(dv.subrange(0, dv.len() as int) =~= dv);
        }
        r
    }

    /// Finds the entries sharing any of the given tags.
    pub fn find_by_tags(&self, tags: &Vec<String>) -> (r: Vec<QA>)
        ensures
            r.deep_view() == qa_with_tags(self.qa_entries.deep_view(), tags.deep_view()),
    {
        let ghost dv = self.qa_entries.deep_view();
        proof {
            assert(dv.subrange(0, 0) =~= Seq::<QAV>::empty());
        }
        let mut r: Vec<QA> = Vec::new();
        let mut i: usize = 0;
        while i < self.qa_entries.len()
            invariant
                i <= self.qa_entries@.len(),
                dv == self.qa_entries.deep_view(),
                r.deep_view() == qa_with_tags(dv.subrange(0, i as int), tags.deep_view()),
            decreases self.qa_entries@.len() - i,
        {
            proof {
                assert(dv.subrange(0, i + 1 as int).drop_last() =~= dv.subrange(0, i as int));
                assert(dv.subrange(0, i + 1 as int).last() == dv[i as int]);
                assert(dv[i as int] == self.qa_entries@[i as int].deep_view());
            }
            if tags_overlap_exec(&self.qa_entries[i].tags, tags) {
                let ghost old_dv = r.deep_view();
                r.push(clone_qa(&self.qa_entries[i]));
                proof {
                    assert(r.deep_view() =~~= old_dv.push(dv[i as int]));
                }
            }
            i = i + 1;
        }
        proof {
            assert(dv.subrange(0, dv.len() as int) =~= dv);
        }
        r
    }

    /// Text search: the entries whose question or answer holds the
    /// query text, case-insensitively.
    pub fn search_text(&self, query: &str) -> (r: Vec<QA>)
        ensures
            r.deep_view() == qa_with_text(self.qa_entries.deep_view(), query@),
    {
        let ghost dv = self.qa_entries.deep_view();
        proof {
            assert(dv.subrange(0, 0) =~= Seq::<QAV>::empty());
        }
        let mut r: Vec<QA> = Vec::new();
        let mut i: usize = 0;
        while i < self.qa_entries.len()
            invariant
                i <= self.qa_entries@.len(),
                dv == self.qa_entries.deep_view(),
                r.deep_view() == qa_with_text(dv.subrange(0, i as int), query@),
            decreases self.qa_entries@.len() - i,
        {
            proof {
                assert(dv.subrange(0, i + 1 as int).drop_last() =~= dv.subrange(0, i as int));
                assert(dv.subrange(0, i + 1 as int).last() == dv[i as int]);
                assert(dv[i as int] == self.qa_entries@[i as int].deep_view());
            }
            let e = &self.qa_entries[i];
            if field_contains_ci(e.question.as_str(), query)
                || field_contains_ci(e.answer.as_str(), query) {
                let ghost old_dv = r.deep_view();
                r.push(clone_qa(e));
                proof {
                    assert(r.deep_view() =~~= old_dv.push(dv[i as int]));
                }
            }
            i = i + 1;
        }
        proof {
            assert(dv.subrange(0, dv.len() as int) =~= dv);
        }
        r
    }
}

} // verus!
