//! The search executor and the document store abstraction.
//!
//! `DatabaseService` is the store-access capability the executor runs
//! against; `MemoryStore` is its verified in-memory implementation.
//! Free-text matching is modeled as ASCII case-insensitive substring
//! containment of any keyword in the record's searchable fields, and
//! the character-name filter as a case-insensitive substring match.

use vstd::prelude::*;

use crate::json::json_of_chapters;
use crate::json::json_of_characters;
use crate::json::json_of_novels;
use crate::json::json_of_qa_entries;
use crate::models::Chapter;
use crate::models::ChapterV;
use crate::models::Character;
use crate::models::CharacterV;
use crate::models::Novel;
use crate::models::NovelV;
use crate::models::QA;
use crate::models::QAV;
use crate::models::SearchParams;
use crate::models::SearchParamsV;
use crate::models::MCPResponse;
use crate::models::ResponseMetadata;
use crate::models::ResultRecords;
use crate::models::SearchAllResults;
use crate::models::clone_chapter;
use crate::models::clone_character;
use crate::models::clone_novel;
use crate::models::clone_opt_string;
use crate::models::clone_qa;
use crate::models::clone_string_vec;
use crate::text::chars_vec;
use crate::text::contains_chars;
use crate::text::contains_seq;
use crate::text::is_digit;
use crate::text::is_digit_exec;
use crate::text::lower_chars;
use crate::text::lex_le;
use crate::text::lex_le_chars;
use crate::text::lower_seq;
use crate::text::str_eq;
use crate::text::dec_digits;
use crate::text::u64_to_string;
use crate::regex_match::compile_ci;
use crate::regex_match::pattern_of;
use crate::regex_match::regex_ci_matches;
use crate::regex_match::regex_is_match;
use crate::regex_match::regex_valid_ci;
use crate::json::chapters_to_json;
use crate::json::characters_to_json;
use crate::json::novels_to_json;
use crate::json::qa_to_json;

verus! {

/// Failures the store access layer can report.
#[derive(Debug, Clone, PartialEq, Eq)]
pub enum StoreError {
    /// The targeted record does not exist.
    NotFound,
    /// The supplied record identifier is not well-formed.
    InvalidId,
    /// The backing store failed; the message describes the failure.
    Backend(String),
}

/// Hexadecimal digit, either case.
pub open spec fn is_hex_char(c: char) -> bool {
    is_digit(c) || ('a' <= c && c <= 'f') || ('A' <= c && c <= 'F')
}

/// A well-formed record identifier: exactly 24 hexadecimal characters.
pub open spec fn valid_object_id(s: Seq<char>) -> bool {
    s.len() == 24 && forall|i: int| 0 <= i < s.len() ==> is_hex_char(#[trigger] s[i])
}

/// Tests whether a string is a well-formed record identifier.
pub fn valid_object_id_exec(s: &str) -> (r: bool)
    ensures
        r == valid_object_id(s@),
{
    let v = chars_vec(s);
    if v.len() != 24 {
        return false;
    }
    let mut i: usize = 0;
    while i < v.len()
        invariant
            i <= v@.len(),
            v@ == s@,
            forall|j: int| 0 <= j < i ==> is_hex_char(#[trigger] v@[j]),
        decreases v@.len() - i,
    {
        let c = v[i];
        let hex = is_digit_exec(c) || ('a' <= c && c <= 'f') || ('A' <= c && c <= 'F');
        if !hex {
            return false;
        }
        i = i + 1;
    }
    true
}

/// A keyword occurs in a text field, ASCII case-insensitively.
pub open spec fn kw_in(hay: Seq<char>, kw: Seq<char>) -> bool {
    contains_seq(lower_seq(hay), lower_seq(kw))
}

/// A keyword occurs in any of a list of text fields.
pub open spec fn kw_in_any(fields: Seq<Seq<char>>, kw: Seq<char>) -> bool {
    exists|i: int| 0 <= i < fields.len() && kw_in(#[trigger] fields[i], kw)
}

/// Two tag lists share at least one tag (exact, case-sensitive).
pub open spec fn tags_overlap(tags: Seq<Seq<char>>, wanted: Seq<Seq<char>>) -> bool {
    exists|i: int, j: int| 0 <= i < tags.len() && 0 <= j < wanted.len()
        && #[trigger] tags[i] == #[trigger] wanted[j]
}

/// The searchable text fields of a novel.
pub open spec fn novel_fields(n: NovelV) -> Seq<Seq<char>> {
    seq![n.title, n.author, n.summary] + n.tags
}

/// The searchable text fields of a chapter.
pub open spec fn chapter_fields(c: ChapterV) -> Seq<Seq<char>> {
    seq![c.title, c.summary] + c.key_points
}

/// The searchable text fields of a character.
pub open spec fn character_fields(c: CharacterV) -> Seq<Seq<char>> {
    seq![c.name, c.role, c.description] + c.key_traits
}

/// The searchable text fields of a question/answer entry.
pub open spec fn qa_fields(q: QAV) -> Seq<Seq<char>> {
    seq![q.question, q.answer] + q.tags
}

/// Free-text match: no keywords means no text filter; otherwise any
/// keyword must occur in some searchable field.
pub open spec fn text_match(fields: Seq<Seq<char>>, keywords: Seq<Seq<char>>) -> bool {
    keywords.len() == 0 || exists|k: int| 0 <= k < keywords.len() && kw_in_any(
        fields, #[trigger] keywords[k])
}

/// The work-identifier filter: applied only when present and
/// well-formed, as an exact match.
pub open spec fn novel_id_filter_ok(record_novel_id: Seq<char>, p: SearchParamsV) -> bool {
    match p.filters {
        Some(f) => match f.novel_id {
            Some(id) => !valid_object_id(id) || record_novel_id == id,
            None => true,
        },
        None => true,
    }
}

/// The tag filter: when present, the record must share a tag with it.
pub open spec fn tags_filter_ok(record_tags: Seq<Seq<char>>, p: SearchParamsV) -> bool {
    match p.filters {
        Some(f) => match f.tags {
            Some(ts) => tags_overlap(record_tags, ts),
            None => true,
        },
        None => true,
    }
}

/// The character-name filter: a case-insensitive substring match.
pub open spec fn name_filter_ok(record_name: Seq<char>, p: SearchParamsV) -> bool {
    match p.filters {
        Some(f) => match f.character_name {
            Some(pat) => kw_in(record_name, pat),
            None => true,
        },
        None => true,
    }
}

/// A novel satisfies a search specification.
pub open spec fn novel_matches(n: NovelV, p: SearchParamsV) -> bool {
    text_match(novel_fields(n), p.keywords) && tags_filter_ok(n.tags, p)
}

/// A chapter satisfies a search specification.
pub open spec fn chapter_matches(c: ChapterV, p: SearchParamsV) -> bool {
    text_match(chapter_fields(c), p.keywords) && novel_id_filter_ok(c.novel_id, p)
}

/// A character satisfies a search specification.
pub open spec fn character_matches(c: CharacterV, p: SearchParamsV) -> bool {
    text_match(character_fields(c), p.keywords) && novel_id_filter_ok(c.novel_id, p)
        && name_filter_ok(c.name, p)
}

/// A question/answer entry satisfies a search specification.
pub open spec fn qa_matches(q: QAV, p: SearchParamsV) -> bool {
    text_match(qa_fields(q), p.keywords)
        && (match p.filters {
            Some(f) => match f.novel_id {
                Some(id) => !valid_object_id(id) || (match q.novel_id {
                    Some(nid) => nid == id,
                    None => false,
                }),
                None => true,
            },
            None => true,
        })
        && tags_filter_ok(q.tags, p)
}

/// Does the lower-cased needle occur in the field, given the needle
/// already lower-cased?
fn kw_in_exec(hay: &str, kw_lower: &Vec<char>) -> (r: bool)
    ensures
        r == contains_seq(lower_seq(hay@), kw_lower@),
{
    let h = chars_vec(hay);
    let hl = lower_chars(&h);
    contains_chars(&hl, kw_lower)
}

/// Does the lower-cased keyword occur in any of the fields?
fn field_match(fields: &Vec<String>, kw_lower: &Vec<char>, Ghost(kw): Ghost<Seq<char>>)
    -> (r: bool)
    requires
        kw_lower@ == lower_seq(kw),
    ensures
        r == kw_in_any(fields.deep_view(), kw),
{
    let mut i: usize = 0;
    while i < fields.len()
        invariant
            i <= fields@.len(),
            kw_lower@ == lower_seq(kw),
            forall|j: int| 0 <= j < i ==> !kw_in(#[trigger] fields.deep_view()[j], kw),
        decreases fields@.len() - i,
    {
        if kw_in_exec(fields[i].as_str(), kw_lower) {
            assert(kw_in(fields.deep_view()[i as int], kw));
            return true;
        }
        i = i + 1;
    }
    false
}

/// Free-text match of a record's fields against the keyword list.
fn text_match_exec(fields: &Vec<String>, keywords: &Vec<String>) -> (r: bool)
    ensures
        r == text_match(fields.deep_view(), keywords.deep_view()),
{
    if keywords.len() == 0 {
        return true;
    }
    let mut k: usize = 0;
    while k < keywords.len()
        invariant
            k <= keywords@.len(),
            keywords@.len() > 0,
            forall|j: int| 0 <= j < k ==> !kw_in_any(fields.deep_view(),
                #[trigger] keywords.deep_view()[j]),
        decreases keywords@.len() - k,
    {
        let kc = chars_vec(keywords[k].as_str());
        let kl = lower_chars(&kc);
        if field_match(fields, &kl, Ghost(keywords.deep_view()[k as int])) {
            return true;
        }
        k = k + 1;
    }
    false
}

/// Exact tag-overlap test.
fn tags_overlap_exec(tags: &Vec<String>, wanted: &Vec<String>) -> (r: bool)
    ensures
        r == tags_overlap(tags.deep_view(), wanted.deep_view()),
{
    let mut i: usize = 0;
    while i < tags.len()
        invariant
            i <= tags@.len(),
            forall|a: int, b: int| 0 <= a < i && 0 <= b < wanted.deep_view().len()
                ==> #[trigger] tags.deep_view()[a] != #[trigger] wanted.deep_view()[b],
        decreases tags@.len() - i,
    {
        let mut j: usize = 0;
        while j < wanted.len()
            invariant
                i < tags@.len(),
                j <= wanted@.len(),
                forall|b: int| 0 <= b < j ==> tags.deep_view()[i as int]
                    != #[trigger] wanted.deep_view()[b],
                forall|a: int, b: int| 0 <= a < i && 0 <= b < wanted.deep_view().len()
                    ==> #[trigger] tags.deep_view()[a] != #[trigger] wanted.deep_view()[b],
            decreases wanted@.len() - j,
        {
            if str_eq(tags[i].as_str(), wanted[j].as_str()) {
                assert(tags.deep_view()[i as int] == wanted.deep_view()[j as int]);
                return true;
            }
            j = j + 1;
        }
        i = i + 1;
    }
    false
}

/// Gathers a novel's searchable fields.
fn novel_fields_exec(n: &Novel) -> (r: Vec<String>)
    ensures
        r.deep_view() == novel_fields(n@),
{
    let mut r: Vec<String> = Vec::new();
    r.push(n.title.clone());
    r.push(n.author.clone());
    r.push(n.summary.clone());
    proof {
        assert(r.deep_view() =~~= seq![n@.title, n@.author, n@.summary]);
        assert(seq![n@.title, n@.author, n@.summary]
            + n.tags.deep_view().subrange(0, 0) =~~= seq![n@.title, n@.author, n@.summary]);
    }
    let mut i: usize = 0;
    while i < n.tags.len()
        invariant
            i <= n.tags@.len(),
            r.deep_view() == seq![n@.title, n@.author, n@.summary]
                + n.tags.deep_view().subrange(0, i as int),
        decreases n.tags@.len() - i,
    {
        let ghost old_dv = r.deep_view();
        r.push(n.tags[i].clone());
        proof {
            let dv = n.tags.deep_view();
            assert(r.deep_view() =~~= old_dv.push(dv[i as int]));
            assert(dv.subrange(0, i + 1 as int).drop_last() =~= dv.subrange(0, i as int));
            assert(dv.subrange(0, i + 1 as int).last() == dv[i as int]);
            assert(r.deep_view() =~~= seq![n@.title, n@.author, n@.summary]
                + dv.subrange(0, i + 1 as int));
        }
        i = i + 1;
    }
    proof {
        let dv = n.tags.deep_view();
        assert(dv.subrange(0, dv.len() as int) =~= dv);
        assert(r.deep_view() =~~= novel_fields(n@));
    }
    r
}

/// Gathers a chapter's searchable fields.
fn chapter_fields_exec(c: &Chapter) -> (r: Vec<String>)
    ensures
        r.deep_view() == chapter_fields(c@),
{
    let mut r: Vec<String> = Vec::new();
    r.push(c.title.clone());
    r.push(c.summary.clone());
    proof {
        assert(r.deep_view() =~~= seq![c@.title, c@.summary]);
        assert(seq![c@.title, c@.summary]
            + c.key_points.deep_view().subrange(0, 0) =~~= seq![c@.title, c@.summary]);
    }
    let mut i: usize = 0;
    while i < c.key_points.len()
        invariant
            i <= c.key_points@.len(),
            r.deep_view() == seq![c@.title, c@.summary]
                + c.key_points.deep_view().subrange(0, i as int),
        decreases c.key_points@.len() - i,
    {
        let ghost old_dv = r.deep_view();
        r.push(c.key_points[i].clone());
        proof {
            let dv = c.key_points.deep_view();
            assert(r.deep_view() =~~= old_dv.push(dv[i as int]));
            assert(dv.subrange(0, i + 1 as int).drop_last() =~= dv.subrange(0, i as int));
            assert(dv.subrange(0, i + 1 as int).last() == dv[i as int]);
            assert(r.deep_view() =~~= seq![c@.title, c@.summary]
                + dv.subrange(0, i + 1 as int));
        }
        i = i + 1;
    }
    proof {
        let dv = c.key_points.deep_view();
        assert(dv.subrange(0, dv.len() as int) =~= dv);
        assert(r.deep_view() =~~= chapter_fields(c@));
    }
    r
}

/// Gathers a character's searchable fields.
fn character_fields_exec(c: &Character) -> (r: Vec<String>)
    ensures
        r.deep_view() == character_fields(c@),
{
    let mut r: Vec<String> = Vec::new();
    r.push(c.name.clone());
    r.push(c.role.clone());
    r.push(c.description.clone());
    proof {
        assert(r.deep_view() =~~= seq![c@.name, c@.role, c@.description]);
        assert(seq![c@.name, c@.role, c@.description]
            + c.key_traits.deep_view().subrange(0, 0) =~~= seq![c@.name, c@.role, c@.description]);
    }
    let mut i: usize = 0;
    while i < c.key_traits.len()
        invariant
            i <= c.key_traits@.len(),
            r.deep_view() == seq![c@.name, c@.role, c@.description]
                + c.key_traits.deep_view().subrange(0, i as int),
        decreases c.key_traits@.len() - i,
    {
        let ghost old_dv = r.deep_view();
        r.push(c.key_traits[i].clone());
        proof {
            let dv = c.key_traits.deep_view();
            assert(r.deep_view() =~~= old_dv.push(dv[i as int]));
            assert(dv.subrange(0, i + 1 as int).drop_last() =~= dv.subrange(0, i as int));
            assert(dv.subrange(0, i + 1 as int).last() == dv[i as int]);
            assert(r.deep_view() =~~= seq![c@.name, c@.role, c@.description]
                + dv.subrange(0, i + 1 as int));
        }
        i = i + 1;
    }
    proof {
        let dv = c.key_traits.deep_view();
        assert(dv.subrange(0, dv.len() as int) =~= dv);
        assert(r.deep_view() =~~= character_fields(c@));
    }
    r
}

/// Gathers a question/answer entry's searchable fields.
fn qa_fields_exec(q: &QA) -> (r: Vec<String>)
    ensures
        r.deep_view() == qa_fields(q@),
{
    let mut r: Vec<String> = Vec::new();
    r.push(q.question.clone());
    r.push(q.answer.clone());
    proof {
        assert(r.deep_view() =~~= seq![q@.question, q@.answer]);
        assert(seq![q@.question, q@.answer]
            + q.tags.deep_view().subrange(0, 0) =~~= seq![q@.question, q@.answer]);
    }
    let mut i: usize = 0;
    while i < q.tags.len()
        invariant
            i <= q.tags@.len(),
            r.deep_view() == seq![q@.question, q@.answer]
                + q.tags.deep_view().subrange(0, i as int),
        decreases q.tags@.len() - i,
    {
        let ghost old_dv = r.deep_view();
        r.push(q.tags[i].clone());
        proof {
            let dv = q.tags.deep_view();
            assert(r.deep_view() =~~= old_dv.push(dv[i as int]));
            assert(dv.subrange(0, i + 1 as int).drop_last() =~= dv.subrange(0, i as int));
            assert(dv.subrange(0, i + 1 as int).last() == dv[i as int]);
            assert(r.deep_view() =~~= seq![q@.question, q@.answer]
                + dv.subrange(0, i + 1 as int));
        }
        i = i + 1;
    }
    proof {
        let dv = q.tags.deep_view();
        assert(dv.subrange(0, dv.len() as int) =~= dv);
        assert(r.deep_view() =~~= qa_fields(q@));
    }
    r
}

/// Whether the work-identifier filter admits a record bearing
/// `record_novel_id`.
fn novel_id_filter_exec(record_novel_id: &str, p: &SearchParams) -> (r: bool)
    ensures
        r == novel_id_filter_ok(record_novel_id@, p@),
{
    match &p.filters {
        Some(f) => match &f.novel_id {
            Some(id) => {
                if valid_object_id_exec(id.as_str()) {
                    str_eq(record_novel_id, id.as_str())
                } else {
                    true
                }
            },
            None => true,
        },
        None => true,
    }
}

/// A novel satisfies the search specification.
pub fn novel_matches_exec(n: &Novel, p: &SearchParams) -> (r: bool)
    ensures
        r == novel_matches(n@, p@),
{
    let fields = novel_fields_exec(n);
    if !text_match_exec(&fields, &p.keywords) {
        return false;
    }
    match &p.filters {
        Some(f) => match &f.tags {
            Some(ts) => tags_overlap_exec(&n.tags, ts),
            None => true,
        },
        None => true,
    }
}

/// A chapter satisfies the search specification.
pub fn chapter_matches_exec(c: &Chapter, p: &SearchParams) -> (r: bool)
    ensures
        r == chapter_matches(c@, p@),
{
    let fields = chapter_fields_exec(c);
    if !text_match_exec(&fields, &p.keywords) {
        return false;
    }
    novel_id_filter_exec(c.novel_id.as_str(), p)
}

/// A character satisfies the search specification.
pub fn character_matches_exec(c: &Character, p: &SearchParams) -> (r: bool)
    ensures
        r == character_matches(c@, p@),
{
    let fields = character_fields_exec(c);
    if !text_match_exec(&fields, &p.keywords) {
        return false;
    }
    if !novel_id_filter_exec(c.novel_id.as_str(), p) {
        return false;
    }
    match &p.filters {
        Some(f) => match &f.character_name {
            Some(pat) => {
                let pc = chars_vec(pat.as_str());
                let pl = lower_chars(&pc);
                kw_in_exec(c.name.as_str(), &pl)
            },
            None => true,
        },
        None => true,
    }
}

/// A question/answer entry satisfies the search specification.
pub fn qa_matches_exec(q: &QA, p: &SearchParams) -> (r: bool)
    ensures
        r == qa_matches(q@, p@),
{
    let fields = qa_fields_exec(q);
    if !text_match_exec(&fields, &p.keywords) {
        return false;
    }
    let id_ok = match &p.filters {
        Some(f) => match &f.novel_id {
            Some(id) => {
                if valid_object_id_exec(id.as_str()) {
                    match &q.novel_id {
                        Some(nid) => str_eq(nid.as_str(), id.as_str()),
                        None => false,
                    }
                } else {
                    true
                }
            },
            None => true,
        },
        None => true,
    };
    if !id_ok {
        return false;
    }
    match &p.filters {
        Some(f) => match &f.tags {
            Some(ts) => tags_overlap_exec(&q.tags, ts),
            None => true,
        },
        None => true,
    }
}

/// The novels matching `p`, in store order.
pub open spec fn filter_novels(ns: Seq<NovelV>, p: SearchParamsV) -> Seq<NovelV>
    decreases ns.len(),
{
    if ns.len() == 0 {
        seq![]
    } else {
        let rest = filter_novels(ns.drop_last(), p);
        if novel_matches(ns.last(), p) {
            rest.push(ns.last())
        } else {
            rest
        }
    }
}

/// The chapters matching `p`, in store order, with the long-form text
/// stripped to honour the token budget.
pub open spec fn filter_chapters(cs: Seq<ChapterV>, p: SearchParamsV) -> Seq<ChapterV>
    decreases cs.len(),
{
    if cs.len() == 0 {
        seq![]
    } else {
        let rest = filter_chapters(cs.drop_last(), p);
        if chapter_matches(cs.last(), p) {
            rest.push(ChapterV { content: None, ..cs.last() })
        } else {
            rest
        }
    }
}

/// The characters matching `p`, in store order.
pub open spec fn filter_characters(cs: Seq<CharacterV>, p: SearchParamsV) -> Seq<CharacterV>
    decreases cs.len(),
{
    if cs.len() == 0 {
        seq![]
    } else {
        let rest = filter_characters(cs.drop_last(), p);
        if character_matches(cs.last(), p) {
            rest.push(cs.last())
        } else {
            rest
        }
    }
}

/// The question/answer entries matching `p`, in store order.
pub open spec fn filter_qa(qs: Seq<QAV>, p: SearchParamsV) -> Seq<QAV>
    decreases qs.len(),
{
    if qs.len() == 0 {
        seq![]
    } else {
        let rest = filter_qa(qs.drop_last(), p);
        if qa_matches(qs.last(), p) {
            rest.push(qs.last())
        } else {
            rest
        }
    }
}

/// Collects clones of the matching novels.
fn filter_novels_exec(ns: &Vec<Novel>, p: &SearchParams) -> (r: Vec<Novel>)
    ensures
        r.deep_view() == filter_novels(ns.deep_view(), p@),
{
    let ghost dv = ns.deep_view();
    proof {
        assert(dv.subrange(0, 0) =~= Seq::<NovelV>::empty());
    }
    let mut r: Vec<Novel> = Vec::new();
    let mut i: usize = 0;
    while i < ns.len()
        invariant
            i <= ns@.len(),
            dv == ns.deep_view(),
            r.deep_view() == filter_novels(dv.subrange(0, i as int), p@),
        decreases ns@.len() - i,
    {
        proof {
            assert(dv.subrange(0, i + 1 as int).drop_last() =~= dv.subrange(0, i as int));
            assert(dv.subrange(0, i + 1 as int).last() == dv[i as int]);
        }
        if novel_matches_exec(&ns[i], p) {
            let ghost old_dv = r.deep_view();
            r.push(clone_novel(&ns[i]));
            proof {
                assert(r.deep_view() =~~= old_dv.push(dv[i as int]));
            }
        }
        i = i + 1;
    }
    proof {
        assert(dv.subrange(0, dv.len() as int) =~= dv);
    }
    r
}

/// Collects content-stripped clones of the matching chapters.
fn filter_chapters_exec(cs: &Vec<Chapter>, p: &SearchParams) -> (r: Vec<Chapter>)
    ensures
        r.deep_view() == filter_chapters(cs.deep_view(), p@),
{
    let ghost dv = cs.deep_view();
    proof {
        assert(dv.subrange(0, 0) =~= Seq::<ChapterV>::empty());
    }
    let mut r: Vec<Chapter> = Vec::new();
    let mut i: usize = 0;
    while i < cs.len()
        invariant
            i <= cs@.len(),
            dv == cs.deep_view(),
            r.deep_view() == filter_chapters(dv.subrange(0, i as int), p@),
        decreases cs@.len() - i,
    {
        proof {
            assert(dv.subrange(0, i + 1 as int).drop_last() =~= dv.subrange(0, i as int));
            assert(dv.subrange(0, i + 1 as int).last() == dv[i as int]);
        }
        if chapter_matches_exec(&cs[i], p) {
            let ghost old_dv = r.deep_view();
            r.push(clone_chapter(&cs[i], false));
            proof {
                assert(r.deep_view() =~~= old_dv.push(
                    ChapterV { content: None, ..dv[i as int] }));
            }
        }
        i = i + 1;
    }
    proof {
        assert(dv.subrange(0, dv.len() as int) =~= dv);
    }
    r
}

/// Collects clones of the matching characters.
fn filter_characters_exec(cs: &Vec<Character>, p: &SearchParams) -> (r: Vec<Character>)
    ensures
        r.deep_view() == filter_characters(cs.deep_view(), p@),
{
    let ghost dv = cs.deep_view();
    proof {
        assert(dv.subrange(0, 0) =~= Seq::<CharacterV>::empty());
    }
    let mut r: Vec<Character> = Vec::new();
    let mut i: usize = 0;
    while i < cs.len()
        invariant
            i <= cs@.len(),
            dv == cs.deep_view(),
            r.deep_view() == filter_characters(dv.subrange(0, i as int), p@),
        decreases cs@.len() - i,
    {
        proof {
            assert(dv.subrange(0, i + 1 as int).drop_last() =~= dv.subrange(0, i as int));
            assert(dv.subrange(0, i + 1 as int).last() == dv[i as int]);
        }
        if character_matches_exec(&cs[i], p) {
            let ghost old_dv = r.deep_view();
            r.push(clone_character(&cs[i]));
            proof {
                assert(r.deep_view() =~~= old_dv.push(dv[i as int]));
            }
        }
        i = i + 1;
    }
    proof {
        assert(dv.subrange(0, dv.len() as int) =~= dv);
    }
    r
}

/// Collects clones of the matching question/answer entries.
fn filter_qa_exec(qs: &Vec<QA>, p: &SearchParams) -> (r: Vec<QA>)
    ensures
        r.deep_view() == filter_qa(qs.deep_view(), p@),
{
    let ghost dv = qs.deep_view();
    proof {
        assert(dv.subrange(0, 0) =~= Seq::<QAV>::empty());
    }
    let mut r: Vec<QA> = Vec::new();
    let mut i: usize = 0;
    while i < qs.len()
        invariant
            i <= qs@.len(),
            dv == qs.deep_view(),
            r.deep_view() == filter_qa(dv.subrange(0, i as int), p@),
        decreases qs@.len() - i,
    {
        proof {
            assert(dv.subrange(0, i + 1 as int).drop_last() =~= dv.subrange(0, i as int));
            assert(dv.subrange(0, i + 1 as int).last() == dv[i as int]);
        }
        if qa_matches_exec(&qs[i], p) {
            let ghost old_dv = r.deep_view();
            r.push(clone_qa(&qs[i]));
            proof {
                assert(r.deep_view() =~~= old_dv.push(dv[i as int]));
            }
        }
        i = i + 1;
    }
    proof {
        assert(dv.subrange(0, dv.len() as int) =~= dv);
    }
    r
}

/// Stable insertion of a chapter into a number-sorted sequence: the new
/// chapter lands after every chapter whose number is not larger.
pub open spec fn insert_chapter_sorted(s: Seq<ChapterV>, c: ChapterV) -> Seq<ChapterV>
    decreases s.len(),
{
    if s.len() == 0 {
        seq![c]
    } else if s.last().number <= c.number {
        s.push(c)
    } else {
        insert_chapter_sorted(s.drop_last(), c).push(s.last())
    }
}

/// Chapters ordered by chapter number ascending (stable insertion
/// sort).
pub open spec fn sort_chapters(s: Seq<ChapterV>) -> Seq<ChapterV>
    decreases s.len(),
{
    if s.len() == 0 {
        seq![]
    } else {
        insert_chapter_sorted(sort_chapters(s.drop_last()), s.last())
    }
}

/// Stable insertion of a character into a name-sorted sequence.
pub open spec fn insert_character_sorted(s: Seq<CharacterV>, c: CharacterV) -> Seq<CharacterV>
    decreases s.len(),
{
    if s.len() == 0 {
        seq![c]
    } else if lex_le(s.last().name, c.name) {
        s.push(c)
    } else {
        insert_character_sorted(s.drop_last(), c).push(s.last())
    }
}

/// Characters ordered by name ascending (stable insertion sort).
pub open spec fn sort_characters(s: Seq<CharacterV>) -> Seq<CharacterV>
    decreases s.len(),
{
    if s.len() == 0 {
        seq![]
    } else {
        insert_character_sorted(sort_characters(s.drop_last()), s.last())
    }
}

/// Where insertion lands: before the trailing run of larger numbers.
proof fn lemma_insert_chapter_at(s: Seq<ChapterV>, c: ChapterV, k: int)
    requires
        0 <= k <= s.len(),
        k == 0 || s[k - 1].number <= c.number,
        forall|j: int| k <= j < s.len() ==> (#[trigger] s[j]).number > c.number,
    ensures
        insert_chapter_sorted(s, c) == s.subrange(0, k) + seq![c] + s.subrange(
            k, s.len() as int),
    decreases s.len(),
{
    if s.len() == 0 {
        assert(s.subrange(0, 0) + seq![c] + s.subrange(0, 0) =~= seq![c]);
    } else if s.last().number <= c.number {
        assert(k == s.len());
        assert(s.push(c) =~= s.subrange(0, k) + seq![c] + s.subrange(k, s.len() as int));
    } else {
        assert(s[s.len() - 1].number > c.number);
        assert(k < s.len());
        let dl = s.drop_last();
        assert(forall|j: int| k <= j < dl.len() ==> (#[trigger] dl[j]).number > c.number);
        lemma_insert_chapter_at(dl, c, k);
        assert(insert_chapter_sorted(dl, c).push(s.last()) =~= s.subrange(0, k) + seq![c]
            + s.subrange(k, s.len() as int));
    }
}

/// Where insertion lands: before the trailing run of larger names.
proof fn lemma_insert_character_at(s: Seq<CharacterV>, c: CharacterV, k: int)
    requires
        0 <= k <= s.len(),
        k == 0 || lex_le(s[k - 1].name, c.name),
        forall|j: int| k <= j < s.len() ==> !lex_le((#[trigger] s[j]).name, c.name),
    ensures
        insert_character_sorted(s, c) == s.subrange(0, k) + seq![c] + s.subrange(
            k, s.len() as int),
    decreases s.len(),
{
    if s.len() == 0 {
        assert(s.subrange(0, 0) + seq![c] + s.subrange(0, 0) =~= seq![c]);
    } else if lex_le(s.last().name, c.name) {
        assert(k == s.len());
        assert(s.push(c) =~= s.subrange(0, k) + seq![c] + s.subrange(k, s.len() as int));
    } else {
        assert(!lex_le(s[s.len() - 1].name, c.name));
        assert(k < s.len());
        let dl = s.drop_last();
        assert(forall|j: int| k <= j < dl.len() ==> !lex_le((#[trigger] dl[j]).name, c.name));
        lemma_insert_character_at(dl, c, k);
        assert(insert_character_sorted(dl, c).push(s.last()) =~= s.subrange(0, k) + seq![c]
            + s.subrange(k, s.len() as int));
    }
}

/// Chapters in non-decreasing chapter-number order.
pub open spec fn chapters_sorted_by_number(s: Seq<ChapterV>) -> bool {
    forall|i: int, j: int| 0 <= i < j < s.len() ==> (#[trigger] s[i]).number
        <= (#[trigger] s[j]).number
}

/// Characters in non-decreasing name order.
pub open spec fn characters_sorted_by_name(s: Seq<CharacterV>) -> bool {
    forall|i: int, j: int| 0 <= i < j < s.len() ==> lex_le((#[trigger] s[i]).name,
        (#[trigger] s[j]).name)
}

/// Insertion keeps an upper bound on the numbers.
proof fn lemma_insert_chapter_bound(s: Seq<ChapterV>, c: ChapterV, b: u32)
    requires
        forall|i: int| 0 <= i < s.len() ==> (#[trigger] s[i]).number <= b,
        c.number <= b,
    ensures
        forall|m: int| 0 <= m < insert_chapter_sorted(s, c).len()
            ==> (#[trigger] insert_chapter_sorted(s, c)[m]).number <= b,
    decreases s.len(),
{
    if s.len() == 0 {
    } else if s.last().number <= c.number {
    } else {
        lemma_insert_chapter_bound(s.drop_last(), c, b);
    }
}

/// Insertion into a number-sorted sequence keeps it sorted.
proof fn lemma_insert_chapter_keeps_sorted(s: Seq<ChapterV>, c: ChapterV)
    requires
        chapters_sorted_by_number(s),
    ensures
        chapters_sorted_by_number(insert_chapter_sorted(s, c)),
    decreases s.len(),
{
    if s.len() == 0 {
    } else if s.last().number <= c.number {
        let r = s.push(c);
        assert forall|i: int, j: int| 0 <= i < j < r.len() implies (#[trigger] r[i]).number
            <= (#[trigger] r[j]).number by {
            if j == r.len() - 1 && i < s.len() - 1 {
                assert(s[i].number <= s[s.len() - 1].number);
            }
        }
    } else {
        let dl = s.drop_last();
        assert(chapters_sorted_by_number(dl));
        lemma_insert_chapter_keeps_sorted(dl, c);
        assert forall|i: int| 0 <= i < dl.len() implies (#[trigger] dl[i]).number
            <= s.last().number by {
            assert(s[i].number <= s[s.len() - 1].number);
        }
        lemma_insert_chapter_bound(dl, c, s.last().number);
        let inner = insert_chapter_sorted(dl, c);
        let r = inner.push(s.last());
        assert forall|i: int, j: int| 0 <= i < j < r.len() implies (#[trigger] r[i]).number
            <= (#[trigger] r[j]).number by {
            if j == r.len() - 1 {
                assert(inner[i].number <= s.last().number);
            }
        }
    }
}

/// The chapter sort is sorted: output numbers are non-decreasing.
pub proof fn lemma_sort_chapters_sorted(s: Seq<ChapterV>)
    ensures
        chapters_sorted_by_number(sort_chapters(s)),
    decreases s.len(),
{
    if s.len() > 0 {
        lemma_sort_chapters_sorted(s.drop_last());
        lemma_insert_chapter_keeps_sorted(sort_chapters(s.drop_last()), s.last());
    }
}

/// Insertion keeps an upper bound on the names.
proof fn lemma_insert_character_bound(s: Seq<CharacterV>, c: CharacterV, b: Seq<char>)
    requires
        forall|i: int| 0 <= i < s.len() ==> lex_le((#[trigger] s[i]).name, b),
        lex_le(c.name, b),
    ensures
        forall|m: int| 0 <= m < insert_character_sorted(s, c).len()
            ==> lex_le((#[trigger] insert_character_sorted(s, c)[m]).name, b),
    decreases s.len(),
{
    if s.len() == 0 {
    } else if lex_le(s.last().name, c.name) {
    } else {
        lemma_insert_character_bound(s.drop_last(), c, b);
    }
}

/// Insertion into a name-sorted sequence keeps it sorted.
proof fn lemma_insert_character_keeps_sorted(s: Seq<CharacterV>, c: CharacterV)
    requires
        characters_sorted_by_name(s),
    ensures
        characters_sorted_by_name(insert_character_sorted(s, c)),
    decreases s.len(),
{
    if s.len() == 0 {
    } else if lex_le(s.last().name, c.name) {
        let r = s.push(c);
        assert forall|i: int, j: int| 0 <= i < j < r.len() implies lex_le(
            (#[trigger] r[i]).name, (#[trigger] r[j]).name) by {
            if j == r.len() - 1 && i < s.len() - 1 {
                assert(lex_le(s[i].name, s[s.len() - 1].name));
                crate::text::lemma_lex_trans(s[i].name, s.last().name, c.name);
            }
        }
    } else {
        let dl = s.drop_last();
        assert(characters_sorted_by_name(dl));
        lemma_insert_character_keeps_sorted(dl, c);
        crate::text::lemma_lex_total(s.last().name, c.name);
        assert(lex_le(c.name, s.last().name));
        assert forall|i: int| 0 <= i < dl.len() implies lex_le((#[trigger] dl[i]).name,
            s.last().name) by {
            assert(lex_le(s[i].name, s[s.len() - 1].name));
        }
        lemma_insert_character_bound(dl, c, s.last().name);
        let inner = insert_character_sorted(dl, c);
        let r = inner.push(s.last());
        assert forall|i: int, j: int| 0 <= i < j < r.len() implies lex_le(
            (#[trigger] r[i]).name, (#[trigger] r[j]).name) by {
            if j == r.len() - 1 {
                assert(lex_le(inner[i].name, s.last().name));
            }
        }
    }
}

/// The character sort is sorted: output names are non-decreasing.
pub proof fn lemma_sort_characters_sorted(s: Seq<CharacterV>)
    ensures
        characters_sorted_by_name(sort_characters(s)),
    decreases s.len(),
{
    if s.len() > 0 {
        lemma_sort_characters_sorted(s.drop_last());
        lemma_insert_character_keeps_sorted(sort_characters(s.drop_last()), s.last());
    }
}

/// Inserts a chapter at its sorted position.
fn insert_chapter_exec(out: &mut Vec<Chapter>, c: Chapter)
    ensures
        final(out).deep_view() == insert_chapter_sorted(old(out).deep_view(), c@),
{
    let ghost dv = out.deep_view();
    let ghost cv = c@;
    let mut k: usize = out.len();
    while k > 0 && out[k - 1].number > c.number
        invariant
            k <= out@.len(),
            dv == out.deep_view(),
            cv == c@,
            forall|j: int| k <= j < out@.len() ==> (#[trigger] out.deep_view()[j]).number
                > cv.number,
        decreases k,
    {
        proof {
            assert(out.deep_view()[k - 1] == out@[k - 1].deep_view());
        }
        k = k - 1;
    }
    let ghost kk = k as int;
    let ghost ov = out@;
    proof {
        if k > 0 {
            assert(dv[kk - 1] == ov[kk - 1].deep_view());
        }
        lemma_insert_chapter_at(dv, cv, kk);
    }
    out.insert(k, c);
    proof {
        let target = dv.subrange(0, kk) + seq![cv] + dv.subrange(kk, dv.len() as int);
        assert forall|j: int| 0 <= j < out@.len() implies #[trigger] out.deep_view()[j]
            == target[j] by {
            assert(out@ == ov.insert(kk, c));
            if j < kk {
                assert(out@[j] == ov[j]);
                assert(dv[j] == ov[j].deep_view());
            } else if j == kk {
                assert(out@[j] == c);
            } else {
                assert(out@[j] == ov[j - 1]);
                assert(dv[j - 1] == ov[j - 1].deep_view());
            }
        }
        assert(out.deep_view() =~= target);
    }
}

/// Inserts a character at its sorted position.
fn insert_character_exec(out: &mut Vec<Character>, c: Character)
    ensures
        final(out).deep_view() == insert_character_sorted(old(out).deep_view(), c@),
{
    let ghost dv = out.deep_view();
    let ghost cv = c@;
    let c_name = chars_vec(c.name.as_str());
    let mut k: usize = out.len();
    loop
        invariant
            k <= out@.len(),
            dv == out.deep_view(),
            cv == c@,
            c_name@ == cv.name,
            forall|j: int| k <= j < out@.len() ==> !lex_le(
                (#[trigger] out.deep_view()[j]).name, cv.name),
        ensures
            k <= out@.len(),
            k == 0 || lex_le(out.deep_view()[k - 1].name, cv.name),
            forall|j: int| k <= j < out@.len() ==> !lex_le(
                (#[trigger] out.deep_view()[j]).name, cv.name),
        decreases k,
    {
        if k == 0 {
            break;
        }
        let prev_name = chars_vec(out[k - 1].name.as_str());
        proof {
            assert(out.deep_view()[k - 1] == out@[k - 1].deep_view());
        }
        if lex_le_chars(&prev_name, &c_name) {
            break;
        }
        k = k - 1;
    }
    let ghost kk = k as int;
    let ghost ov = out@;
    proof {
        lemma_insert_character_at(dv, cv, kk);
    }
    out.insert(k, c);
    proof {
        let target = dv.subrange(0, kk) + seq![cv] + dv.subrange(kk, dv.len() as int);
        assert forall|j: int| 0 <= j < out@.len() implies #[trigger] out.deep_view()[j]
            == target[j] by {
            assert(out@ == ov.insert(kk, c));
            if j < kk {
                assert(out@[j] == ov[j]);
                assert(dv[j] == ov[j].deep_view());
            } else if j == kk {
                assert(out@[j] == c);
            } else {
                assert(out@[j] == ov[j - 1]);
                assert(dv[j - 1] == ov[j - 1].deep_view());
            }
        }
        assert(out.deep_view() =~= target);
    }
}

/// Sorts chapters by number ascending.
fn sort_chapters_exec(v: &Vec<Chapter>) -> (r: Vec<Chapter>)
    ensures
        r.deep_view() == sort_chapters(v.deep_view()),
{
    let ghost dv = v.deep_view();
    proof {
        assert(dv.subrange(0, 0) =~= Seq::<ChapterV>::empty());
    }
    let mut out: Vec<Chapter> = Vec::new();
    let mut i: usize = 0;
    while i < v.len()
        invariant
            i <= v@.len(),
            dv == v.deep_view(),
            out.deep_view() == sort_chapters(dv.subrange(0, i as int)),
        decreases v@.len() - i,
    {
        let c = clone_chapter(&v[i], true);
        insert_chapter_exec(&mut out, c);
        proof {
            assert(dv.subrange(0, i + 1 as int).drop_last() =~= dv.subrange(0, i as int));
            assert(dv.subrange(0, i + 1 as int).last() == dv[i as int]);
        }
        i = i + 1;
    }
    proof {
        assert(dv.subrange(0, dv.len() as int) =~= dv);
    }
    out
}

/// Sorts characters by name ascending.
fn sort_characters_exec(v: &Vec<Character>) -> (r: Vec<Character>)
    ensures
        r.deep_view() == sort_characters(v.deep_view()),
{
    let ghost dv = v.deep_view();
    proof {
        assert(dv.subrange(0, 0) =~= Seq::<CharacterV>::empty());
    }
    let mut out: Vec<Character> = Vec::new();
    let mut i: usize = 0;
    while i < v.len()
        invariant
            i <= v@.len(),
            dv == v.deep_view(),
            out.deep_view() == sort_characters(dv.subrange(0, i as int)),
        decreases v@.len() - i,
    {
        let c = clone_character(&v[i]);
        insert_character_exec(&mut out, c);
        proof {
            assert(dv.subrange(0, i + 1 as int).drop_last() =~= dv.subrange(0, i as int));
            assert(dv.subrange(0, i + 1 as int).last() == dv[i as int]);
        }
        i = i + 1;
    }
    proof {
        assert(dv.subrange(0, dv.len() as int) =~= dv);
    }
    out
}

/// The first `k` elements of a sequence, or all of it when shorter.
pub open spec fn first_n<A>(s: Seq<A>, k: nat) -> Seq<A> {
    if s.len() <= k {
        s
    } else {
        s.subrange(0, k as int)
    }
}

/// The limit a search runs under: the explicit one, else the
/// collection's default page size.
pub open spec fn effective_limit(p: SearchParamsV, default: u32) -> u32 {
    match p.limit {
        Some(l) => l,
        None => default,
    }
}

/// The token estimate for a serialized result: roughly one token per
/// four bytes, on the byte length truncated to 32 bits.
pub open spec fn token_estimate(json: Seq<char>) -> u32 {
    (((((vstd::utf8::encode_utf8(json).len() as usize) as u64) % 0x100000000u64 + 3) / 4)
        as u32)
}

/// Estimates the token count of a serialized result from its byte
/// length.
pub fn estimate_token_count(json: &str) -> (r: u32)
    ensures
        r == token_estimate(json@),
{
    let byte_len = json.len();
    let reduced: u64 = (byte_len as u64) % 0x100000000u64;
    (((reduced + 3) / 4) as u32)
}

/// Reads the wall clock as milliseconds since the Unix epoch.
///
/// Relies on `std::time::SystemTime::now` and `duration_since`; being a
/// clock read, nothing is promised of the value.
#[verifier::external_body]
fn now_unix_millis() -> u64 {
    match std::time::SystemTime::now().duration_since(std::time::UNIX_EPOCH) {
        Ok(d) => d.as_millis() as u64,
        Err(_) => 0,
    }
}

/// The annotations a search response carries, given the pagination
/// outcome and the serialized records.
pub open spec fn metadata_ok(m: ResponseMetadata, has_more: bool, json: Seq<char>) -> bool {
    &&& m.has_more == has_more
    &&& m.token_count == Some(token_estimate(json))
    &&& (m.next_page_token is Some) == has_more
    &&& match m.next_page_token {
        Some(t) => exists|k: nat| t@ == "page_token_"@ + dec_digits(k),
        None => true,
    }
}

/// Builds response metadata; the page token, present exactly when more
/// records wait, is a time-derived marker, not a resumable cursor.
fn make_metadata(token_count: u32, query_time_ms: u64, has_more: bool)
    -> (r: ResponseMetadata)
    ensures
        r.token_count == Some(token_count),
        r.query_time_ms == query_time_ms,
        r.has_more == has_more,
        (r.next_page_token is Some) == has_more,
        match r.next_page_token {
            Some(t) => exists|k: nat| t@ == "page_token_"@ + dec_digits(k),
            None => true,
        },
{
    let next_page_token = if has_more {
        let secs = now_unix_millis() / 1000;
        let mut t = String::new();
        t.append("page_token_");
        let digits = u64_to_string(secs);
        t.append(digits.as_str());
        proof {
            assert(t@ =~= "page_token_"@ + dec_digits(secs as nat));
            assert(exists|k: nat| t@ == "page_token_"@ + dec_digits(k)) by {
                assert(t@ == "page_token_"@ + dec_digits(secs as nat));
            }
        }
        Some(t)
    } else {
        None
    };
    ResponseMetadata { token_count: Some(token_count), query_time_ms, has_more, next_page_token }
}

/// Index of the first chapter bearing `id`, searching from `i`;
/// negative when none does.
pub open spec fn chapter_index_from(cs: Seq<ChapterV>, id: Seq<char>, i: int) -> int
    decreases cs.len() - i,
{
    if i < 0 || i >= cs.len() {
        -1
    } else if cs[i].id == Some(id) {
        i
    } else {
        chapter_index_from(cs, id, i + 1)
    }
}

/// Index of the first chapter bearing `id`, or negative.
pub open spec fn chapter_index(cs: Seq<ChapterV>, id: Seq<char>) -> int {
    chapter_index_from(cs, id, 0)
}

/// Index of the first character record bearing `id`, searching from
/// `i`; negative when none does.
pub open spec fn character_index_from(cs: Seq<CharacterV>, id: Seq<char>, i: int) -> int
    decreases cs.len() - i,
{
    if i < 0 || i >= cs.len() {
        -1
    } else if cs[i].id == Some(id) {
        i
    } else {
        character_index_from(cs, id, i + 1)
    }
}

/// Index of the first character record bearing `id`, or negative.
pub open spec fn character_index(cs: Seq<CharacterV>, id: Seq<char>) -> int {
    character_index_from(cs, id, 0)
}

/// The text a single-chapter fetch returns: the long-form content when
/// present, else the summary behind a marker, else a fixed sentinel.
pub open spec fn chapter_content_text(c: ChapterV) -> Seq<char> {
    match c.content {
        Some(t) => t,
        None => if c.summary.len() > 0 {
            "Summary: "@ + c.summary
        } else {
            "No content or summary available for this chapter."@
        },
    }
}

/// A correct novels search response for store contents `ns`.
pub open spec fn novels_search_ok(ns: Seq<NovelV>, p: SearchParamsV, resp: MCPResponse)
    -> bool {
    let matched = filter_novels(ns, p);
    let lim = effective_limit(p, 5) as nat;
    &&& resp.status@ == "success"@
    &&& match resp.data {
        ResultRecords::Novels(rs) => rs.deep_view() == first_n(matched, lim)
            && metadata_ok(resp.metadata, matched.len() > lim, json_of_novels(rs@)),
        _ => false,
    }
}

/// A correct chapters search response: matching chapters, stripped of
/// long-form text, sorted by number, truncated to the limit.
pub open spec fn chapters_search_ok(cs: Seq<ChapterV>, p: SearchParamsV, resp: MCPResponse)
    -> bool {
    let matched = filter_chapters(cs, p);
    let lim = effective_limit(p, 3) as nat;
    &&& resp.status@ == "success"@
    &&& match resp.data {
        ResultRecords::Chapters(rs) => rs.deep_view() == first_n(sort_chapters(matched), lim)
            && metadata_ok(resp.metadata, matched.len() > lim, json_of_chapters(rs@)),
        _ => false,
    }
}

/// A correct characters search response: matching characters, sorted
/// by name, truncated to the limit.
pub open spec fn characters_search_ok(cs: Seq<CharacterV>, p: SearchParamsV,
    resp: MCPResponse) -> bool {
    let matched = filter_characters(cs, p);
    let lim = effective_limit(p, 5) as nat;
    &&& resp.status@ == "success"@
    &&& match resp.data {
        ResultRecords::Characters(rs) => rs.deep_view() == first_n(
            sort_characters(matched), lim)
            && metadata_ok(resp.metadata, matched.len() > lim, json_of_characters(rs@)),
        _ => false,
    }
}

/// A correct question/answer search response.
pub open spec fn qa_search_ok(qs: Seq<QAV>, p: SearchParamsV, resp: MCPResponse) -> bool {
    let matched = filter_qa(qs, p);
    let lim = effective_limit(p, 3) as nat;
    &&& resp.status@ == "success"@
    &&& match resp.data {
        ResultRecords::QaEntries(rs) => rs.deep_view() == first_n(matched, lim)
            && metadata_ok(resp.metadata, matched.len() > lim, json_of_qa_entries(rs@)),
        _ => false,
    }
}

/// A question/answer entry matches a pattern when the engine matches
/// its question or its answer.
pub open spec fn qa_regex_matches(q: QAV, pat: Seq<char>) -> bool {
    regex_ci_matches(pat, q.question) || regex_ci_matches(pat, q.answer)
}

/// A chapter matches a pattern on its title, summary or any key point.
pub open spec fn chapter_regex_matches(c: ChapterV, pat: Seq<char>) -> bool {
    regex_ci_matches(pat, c.title) || regex_ci_matches(pat, c.summary)
        || exists|i: int| 0 <= i < c.key_points.len() && regex_ci_matches(
            pat, #[trigger] c.key_points[i])
}

/// A character matches a pattern on its name, description or any key
/// trait.
pub open spec fn character_regex_matches(c: CharacterV, pat: Seq<char>) -> bool {
    regex_ci_matches(pat, c.name) || regex_ci_matches(pat, c.description)
        || exists|i: int| 0 <= i < c.key_traits.len() && regex_ci_matches(
            pat, #[trigger] c.key_traits[i])
}

/// The question/answer entries the pattern search returns.
pub open spec fn filter_qa_regex(qs: Seq<QAV>, pat: Seq<char>) -> Seq<QAV>
    decreases qs.len(),
{
    if qs.len() == 0 {
        seq![]
    } else {
        let rest = filter_qa_regex(qs.drop_last(), pat);
        if qa_regex_matches(qs.last(), pat) {
            rest.push(qs.last())
        } else {
            rest
        }
    }
}

/// The chapters the pattern search returns, long-form text stripped.
pub open spec fn filter_chapters_regex(cs: Seq<ChapterV>, pat: Seq<char>) -> Seq<ChapterV>
    decreases cs.len(),
{
    if cs.len() == 0 {
        seq![]
    } else {
        let rest = filter_chapters_regex(cs.drop_last(), pat);
        if chapter_regex_matches(cs.last(), pat) {
            rest.push(ChapterV { content: None, ..cs.last() })
        } else {
            rest
        }
    }
}

/// The characters the pattern search returns.
pub open spec fn filter_characters_regex(cs: Seq<CharacterV>, pat: Seq<char>)
    -> Seq<CharacterV>
    decreases cs.len(),
{
    if cs.len() == 0 {
        seq![]
    } else {
        let rest = filter_characters_regex(cs.drop_last(), pat);
        if character_regex_matches(cs.last(), pat) {
            rest.push(cs.last())
        } else {
            rest
        }
    }
}

/// The store-access capability the executor and dispatcher run
/// against.  Contracts are stated over the four collection views; the
/// verified `MemoryStore` implements them exactly, and an outside
/// document store is expected to approximate the same semantics.
pub trait DatabaseService: Sized {
    /// The novels the store holds.
    spec fn novels_view(&self) -> Seq<NovelV>;

    /// The chapters the store holds.
    spec fn chapters_view(&self) -> Seq<ChapterV>;

    /// The character records the store holds.
    spec fn characters_view(&self) -> Seq<CharacterV>;

    /// The question/answer entries the store holds.
    spec fn qa_view(&self) -> Seq<QAV>;

    /// Bounded novel search.
    fn search_novels(&self, params: &SearchParams) -> (r: Result<MCPResponse, StoreError>)
        ensures
            match r {
                Ok(resp) => novels_search_ok(self.novels_view(), params@, resp),
                Err(_) => true,
            },
    ;

    /// Bounded chapter search; results carry no long-form text.
    fn search_chapters(&self, params: &SearchParams) -> (r: Result<MCPResponse, StoreError>)
        ensures
            match r {
                Ok(resp) => chapters_search_ok(self.chapters_view(), params@, resp),
                Err(_) => true,
            },
    ;

    /// Bounded character search.
    fn search_characters(&self, params: &SearchParams)
        -> (r: Result<MCPResponse, StoreError>)
        ensures
            match r {
                Ok(resp) => characters_search_ok(self.characters_view(), params@, resp),
                Err(_) => true,
            },
    ;

    /// Bounded question/answer search.
    fn search_qa(&self, params: &SearchParams) -> (r: Result<MCPResponse, StoreError>)
        ensures
            match r {
                Ok(resp) => qa_search_ok(self.qa_view(), params@, resp),
                Err(_) => true,
            },
    ;

    /// Runs the four collection searches and joins their result sets;
    /// any failing sub-search fails the whole operation.
    fn search_all(&self, params: &SearchParams) -> (r: Result<SearchAllResults, StoreError>)
        ensures
            match r {
                Ok(all) => {
                    &&& all.novels.deep_view() == first_n(
                        filter_novels(self.novels_view(), params@),
                        effective_limit(params@, 5) as nat)
                    &&& all.chapters.deep_view() == first_n(
                        sort_chapters(filter_chapters(self.chapters_view(), params@)),
                        effective_limit(params@, 3) as nat)
                    &&& all.characters.deep_view() == first_n(
                        sort_characters(filter_characters(self.characters_view(), params@)),
                        effective_limit(params@, 5) as nat)
                    &&& all.qa_entries.deep_view() == first_n(
                        filter_qa(self.qa_view(), params@),
                        effective_limit(params@, 3) as nat)
                },
                Err(_) => true,
            },
    ;

    /// Pattern search over questions and answers.
    fn search_qa_by_regex(&self, regex_pattern: &str) -> (r: Result<Vec<QA>, StoreError>)
        ensures
            match r {
                Ok(es) => regex_valid_ci(regex_pattern@) && es.deep_view()
                    == filter_qa_regex(self.qa_view(), regex_pattern@),
                Err(_) => true,
            },
    ;

    /// Pattern search over chapter titles, summaries and key points;
    /// results carry no long-form text.
    fn search_chapters_by_regex(&self, regex_pattern: &str)
        -> (r: Result<Vec<Chapter>, StoreError>)
        ensures
            match r {
                Ok(es) => regex_valid_ci(regex_pattern@) && es.deep_view()
                    == filter_chapters_regex(self.chapters_view(), regex_pattern@),
                Err(_) => true,
            },
    ;

    /// Pattern search over character names, descriptions and traits.
    fn search_characters_by_regex(&self, regex_pattern: &str)
        -> (r: Result<Vec<Character>, StoreError>)
        ensures
            match r {
                Ok(es) => regex_valid_ci(regex_pattern@) && es.deep_view()
                    == filter_characters_regex(self.characters_view(), regex_pattern@),
                Err(_) => true,
            },
    ;

    /// Single-chapter fetch by identifier: a malformed identifier or a
    /// miss yields `None`, never an error.
    fn get_chapter_content(&self, chapter_id: &str)
        -> (r: Result<Option<String>, StoreError>)
        ensures
            match r {
                Ok(opt) => {
                    if !valid_object_id(chapter_id@) {
                        opt is None
                    } else {
                        let i = chapter_index(self.chapters_view(), chapter_id@);
                        if i < 0 {
                            opt is None
                        } else {
                            match opt {
                                Some(s) => s@ == chapter_content_text(
                                    self.chapters_view()[i]),
                                None => false,
                            }
                        }
                    }
                },
                Err(_) => valid_object_id(chapter_id@),
            },
    ;

    /// Single-character fetch by identifier: a malformed identifier or
    /// a miss yields `None`, never an error.
    fn get_character_details(&self, character_id: &str)
        -> (r: Result<Option<Character>, StoreError>)
        ensures
            match r {
                Ok(opt) => {
                    if !valid_object_id(character_id@) {
                        opt is None
                    } else {
                        let i = character_index(self.characters_view(), character_id@);
                        if i < 0 {
                            opt is None
                        } else {
                            match opt {
                                Some(c) => c@ == self.characters_view()[i],
                                None => false,
                            }
                        }
                    }
                },
                Err(_) => valid_object_id(character_id@),
            },
    ;

    /// Replaces the summary of the first chapter bearing the
    /// identifier.  Zero matched records is a distinguishable
    /// not-found failure, never a silent success.
    fn update_chapter_summary(&mut self, chapter_id: &str, new_summary: &str)
        -> (r: Result<(), StoreError>)
        ensures
            match r {
                Ok(_) => ({
                    let cs = old(self).chapters_view();
                    let i = chapter_index(cs, chapter_id@);
                    &&& valid_object_id(chapter_id@)
                    &&& i >= 0
                    &&& final(self).chapters_view() == cs.update(i, (ChapterV {
                        summary: new_summary@,
                        ..cs[i]
                    }))
                    &&& final(self).novels_view() == old(self).novels_view()
                    &&& final(self).characters_view() == old(self).characters_view()
                    &&& final(self).qa_view() == old(self).qa_view()
                }),
                Err(StoreError::NotFound) => ({
                    &&& valid_object_id(chapter_id@)
                    &&& chapter_index(old(self).chapters_view(), chapter_id@) < 0
                    &&& final(self).novels_view() == old(self).novels_view()
                    &&& final(self).chapters_view() == old(self).chapters_view()
                    &&& final(self).characters_view() == old(self).characters_view()
                    &&& final(self).qa_view() == old(self).qa_view()
                }),
                Err(StoreError::InvalidId) => ({
                    &&& !valid_object_id(chapter_id@)
                    &&& final(self).novels_view() == old(self).novels_view()
                    &&& final(self).chapters_view() == old(self).chapters_view()
                    &&& final(self).characters_view() == old(self).characters_view()
                    &&& final(self).qa_view() == old(self).qa_view()
                }),
                Err(StoreError::Backend(_)) => ({
                    &&& final(self).novels_view() == old(self).novels_view()
                    &&& final(self).chapters_view() == old(self).chapters_view()
                    &&& final(self).characters_view() == old(self).characters_view()
                    &&& final(self).qa_view() == old(self).qa_view()
                }),
            },
    ;
}

/// Does the compiled pattern match any of the fields?
fn any_regex_match(re: &regex::Regex, fields: &Vec<String>) -> (r: bool)
    ensures
        r == exists|i: int| 0 <= i < fields.deep_view().len() && regex_ci_matches(
            pattern_of(*re), #[trigger] fields.deep_view()[i]),
{
    let mut i: usize = 0;
    while i < fields.len()
        invariant
            i <= fields@.len(),
            forall|j: int| 0 <= j < i ==> !regex_ci_matches(pattern_of(*re),
                #[trigger] fields.deep_view()[j]),
        decreases fields@.len() - i,
    {
        if regex_is_match(re, fields[i].as_str()) {
            assert(regex_ci_matches(pattern_of(*re), fields.deep_view()[i as int]));
            return true;
        }
        i = i + 1;
    }
    false
}

/// The verified in-memory document store: the concrete
/// `DatabaseService` used by tests, and the reference model for any
/// outside store.
pub struct MemoryStore {
    pub novels: Vec<Novel>,
    pub chapters: Vec<Chapter>,
    pub characters: Vec<Character>,
    pub qa_entries: Vec<QA>,
}

impl MemoryStore {
    /// An empty store.
    pub fn new() -> (r: MemoryStore)
        ensures
            r.novels@.len() == 0,
            r.chapters@.len() == 0,
            r.characters@.len() == 0,
            r.qa_entries@.len() == 0,
    {
        MemoryStore {
            novels: Vec::new(),
            chapters: Vec::new(),
            characters: Vec::new(),
            qa_entries: Vec::new(),
        }
    }
}

impl DatabaseService for MemoryStore {
    open spec fn novels_view(&self) -> Seq<NovelV> {
        self.novels.deep_view()
    }

    open spec fn chapters_view(&self) -> Seq<ChapterV> {
        self.chapters.deep_view()
    }

    open spec fn characters_view(&self) -> Seq<CharacterV> {
        self.characters.deep_view()
    }

    open spec fn qa_view(&self) -> Seq<QAV> {
        self.qa_entries.deep_view()
    }

    fn search_novels(&self, params: &SearchParams) -> (r: Result<MCPResponse, StoreError>)
        ensures
            r is Ok,
    {
        let start = now_unix_millis();
        let matched = filter_novels_exec(&self.novels, params);
        let ghost matched_dv = matched.deep_view();
        let limit: u32 = match params.limit {
            Some(l) => l,
            None => 5,
        };
        let limu: usize = limit as usize;
        let has_more = matched.len() > limu;
        let mut records = matched;
        let ghost ov = records@;
        records.truncate(limu);
        proof {
            assert forall|j: int| 0 <= j < records@.len() implies
                #[trigger] records.deep_view()[j] == first_n(matched_dv, limit as nat)[j] by {
                assert(records@[j] == ov[j]);
                assert(matched_dv[j] == ov[j].deep_view());
            }
            assert(records.deep_view() =~= first_n(matched_dv, limit as nat));
        }
        let json = novels_to_json(&records);
        let token_count = estimate_token_count(json.as_str());
        let end = now_unix_millis();
        let duration = if end >= start {
            end - start
        } else {
            0
        };
        let metadata = make_metadata(token_count, duration, has_more);
        Ok(MCPResponse {
            status: "success".to_owned(),
            data: ResultRecords::Novels(records),
            metadata,
        })
    }

    fn search_chapters(&self, params: &SearchParams) -> (r: Result<MCPResponse, StoreError>)
        ensures
            r is Ok,
    {
        let start = now_unix_millis();
        let matched = filter_chapters_exec(&self.chapters, params);
        let matched_len = matched.len();
        let sorted = sort_chapters_exec(&matched);
        let ghost sorted_dv = sorted.deep_view();
        let limit: u32 = match params.limit {
            Some(l) => l,
            None => 3,
        };
        let limu: usize = limit as usize;
        let has_more = matched_len > limu;
        let mut records = sorted;
        let ghost ov = records@;
        records.truncate(limu);
        proof {
            assert forall|j: int| 0 <= j < records@.len() implies
                #[trigger] records.deep_view()[j] == first_n(sorted_dv, limit as nat)[j] by {
                assert(records@[j] == ov[j]);
                assert(sorted_dv[j] == ov[j].deep_view());
            }
            assert(records.deep_view() =~= first_n(sorted_dv, limit as nat));
        }
        let json = chapters_to_json(&records);
        let token_count = estimate_token_count(json.as_str());
        let end = now_unix_millis();
        let duration = if end >= start {
            end - start
        } else {
            0
        };
        let metadata = make_metadata(token_count, duration, has_more);
        Ok(MCPResponse {
            status: "success".to_owned(),
            data: ResultRecords::Chapters(records),
            metadata,
        })
    }

    fn search_characters(&self, params: &SearchParams)
        -> (r: Result<MCPResponse, StoreError>)
        ensures
            r is Ok,
    {
        let start = now_unix_millis();
        let matched = filter_characters_exec(&self.characters, params);
        let matched_len = matched.len();
        let sorted = sort_characters_exec(&matched);
        let ghost sorted_dv = sorted.deep_view();
        let limit: u32 = match params.limit {
            Some(l) => l,
            None => 5,
        };
        let limu: usize = limit as usize;
        let has_more = matched_len > limu;
        let mut records = sorted;
        let ghost ov = records@;
        records.truncate(limu);
        proof {
            assert forall|j: int| 0 <= j < records@.len() implies
                #[trigger] records.deep_view()[j] == first_n(sorted_dv, limit as nat)[j] by {
                assert(records@[j] == ov[j]);
                assert(sorted_dv[j] == ov[j].deep_view());
            }
            assert(records.deep_view() =~= first_n(sorted_dv, limit as nat));
        }
        let json = characters_to_json(&records);
        let token_count = estimate_token_count(json.as_str());
        let end = now_unix_millis();
        let duration = if end >= start {
            end - start
        } else {
            0
        };
        let metadata = make_metadata(token_count, duration, has_more);
        Ok(MCPResponse {
            status: "success".to_owned(),
            data: ResultRecords::Characters(records),
            metadata,
        })
    }

    fn search_qa(&self, params: &SearchParams) -> (r: Result<MCPResponse, StoreError>)
        ensures
            r is Ok,
    {
        let start = now_unix_millis();
        let matched = filter_qa_exec(&self.qa_entries, params);
        let ghost matched_dv = matched.deep_view();
        let limit: u32 = match params.limit {
            Some(l) => l,
            None => 3,
        };
        let limu: usize = limit as usize;
        let has_more = matched.len() > limu;
        let mut records = matched;
        let ghost ov = records@;
        records.truncate(limu);
        proof {
            assert forall|j: int| 0 <= j < records@.len() implies
                #[trigger] records.deep_view()[j] == first_n(matched_dv, limit as nat)[j] by {
                assert(records@[j] == ov[j]);
                assert(matched_dv[j] == ov[j].deep_view());
            }
            assert(records.deep_view() =~= first_n(matched_dv, limit as nat));
        }
        let json = qa_to_json(&records);
        let token_count = estimate_token_count(json.as_str());
        let end = now_unix_millis();
        let duration = if end >= start {
            end - start
        } else {
            0
        };
        let metadata = make_metadata(token_count, duration, has_more);
        Ok(MCPResponse {
            status: "success".to_owned(),
            data: ResultRecords::QaEntries(records),
            metadata,
        })
    }

    fn search_all(&self, params: &SearchParams)
        -> (r: Result<SearchAllResults, StoreError>)
        ensures
            r is Ok,
    {
        let novels_resp = self.search_novels(params)?;
        let chapters_resp = self.search_chapters(params)?;
        let characters_resp = self.search_characters(params)?;
        let qa_resp = self.search_qa(params)?;
        let novels = match novels_resp.data {
            ResultRecords::Novels(rs) => rs,
            _ => {
                proof {
                    assert(false);
                }
                return Err(StoreError::Backend("unexpected result shape".to_owned()));
            },
        };
        let chapters = match chapters_resp.data {
            ResultRecords::Chapters(rs) => rs,
            _ => {
                proof {
                    assert(false);
                }
                return Err(StoreError::Backend("unexpected result shape".to_owned()));
            },
        };
        let characters = match characters_resp.data {
            ResultRecords::Characters(rs) => rs,
            _ => {
                proof {
                    assert(false);
                }
                return Err(StoreError::Backend("unexpected result shape".to_owned()));
            },
        };
        let qa_entries = match qa_resp.data {
            ResultRecords::QaEntries(rs) => rs,
            _ => {
                proof {
                    assert(false);
                }
                return Err(StoreError::Backend("unexpected result shape".to_owned()));
            },
        };
        Ok(SearchAllResults { novels, chapters, characters, qa_entries })
    }

    fn search_qa_by_regex(&self, regex_pattern: &str) -> (r: Result<Vec<QA>, StoreError>)
        ensures
            (r is Ok) == regex_valid_ci(regex_pattern@),
    {
        match compile_ci(regex_pattern) {
            None => Err(StoreError::Backend("invalid regular expression".to_owned())),
            Some(re) => {
                let ghost dv = self.qa_entries.deep_view();
                proof {
                    assert(dv.subrange(0, 0) =~= Seq::<QAV>::empty());
                }
                let mut out: Vec<QA> = Vec::new();
                let mut i: usize = 0;
                while i < self.qa_entries.len()
                    invariant
                        i <= self.qa_entries@.len(),
                        dv == self.qa_entries.deep_view(),
                        pattern_of(re) == regex_pattern@,
                        out.deep_view() == filter_qa_regex(dv.subrange(0, i as int),
                            regex_pattern@),
                    decreases self.qa_entries@.len() - i,
                {
                    proof {
                        assert(dv.subrange(0, i + 1 as int).drop_last()
                            =~= dv.subrange(0, i as int));
                        assert(dv.subrange(0, i + 1 as int).last() == dv[i as int]);
                        assert(dv[i as int] == self.qa_entries@[i as int].deep_view());
                    }
                    let q = &self.qa_entries[i];
                    let m = regex_is_match(&re, q.question.as_str())
                        || regex_is_match(&re, q.answer.as_str());
                    if m {
                        let ghost old_dv = out.deep_view();
                        out.push(clone_qa(q));
                        proof {
                            assert(out.deep_view() =~~= old_dv.push(dv[i as int]));
                        }
                    }
                    i = i + 1;
                }
                proof {
                    assert(dv.subrange(0, dv.len() as int) =~= dv);
                }
                Ok(out)
            },
        }
    }

    fn search_chapters_by_regex(&self, regex_pattern: &str)
        -> (r: Result<Vec<Chapter>, StoreError>)
        ensures
            (r is Ok) == regex_valid_ci(regex_pattern@),
    {
        match compile_ci(regex_pattern) {
            None => Err(StoreError::Backend("invalid regular expression".to_owned())),
            Some(re) => {
                let ghost dv = self.chapters.deep_view();
                proof {
                    assert(dv.subrange(0, 0) =~= Seq::<ChapterV>::empty());
                }
                let mut out: Vec<Chapter> = Vec::new();
                let mut i: usize = 0;
                while i < self.chapters.len()
                    invariant
                        i <= self.chapters@.len(),
                        dv == self.chapters.deep_view(),
                        pattern_of(re) == regex_pattern@,
                        out.deep_view() == filter_chapters_regex(dv.subrange(0, i as int),
                            regex_pattern@),
                    decreases self.chapters@.len() - i,
                {
                    proof {
                        assert(dv.subrange(0, i + 1 as int).drop_last()
                            =~= dv.subrange(0, i as int));
                        assert(dv.subrange(0, i + 1 as int).last() == dv[i as int]);
                        assert(dv[i as int] == self.chapters@[i as int].deep_view());
                    }
                    let c = &self.chapters[i];
                    let m = regex_is_match(&re, c.title.as_str())
                        || regex_is_match(&re, c.summary.as_str())
                        || any_regex_match(&re, &c.key_points);
                    if m {
                        let ghost old_dv = out.deep_view();
                        out.push(clone_chapter(c, false));
                        proof {
                            assert(out.deep_view() =~~= old_dv.push(
                                ChapterV { content: None, ..dv[i as int] }));
                        }
                    }
                    i = i + 1;
                }
                proof {
                    assert(dv.subrange(0, dv.len() as int) =~= dv);
                }
                Ok(out)
            },
        }
    }

    fn search_characters_by_regex(&self, regex_pattern: &str)
        -> (r: Result<Vec<Character>, StoreError>)
        ensures
            (r is Ok) == regex_valid_ci(regex_pattern@),
    {
        match compile_ci(regex_pattern) {
            None => Err(StoreError::Backend("invalid regular expression".to_owned())),
            Some(re) => {
                let ghost dv = self.characters.deep_view();
                proof {
                    assert(dv.subrange(0, 0) =~= Seq::<CharacterV>::empty());
                }
                let mut out: Vec<Character> = Vec::new();
                let mut i: usize = 0;
                while i < self.characters.len()
                    invariant
                        i <= self.characters@.len(),
                        dv == self.characters.deep_view(),
                        pattern_of(re) == regex_pattern@,
                        out.deep_view() == filter_characters_regex(dv.subrange(0, i as int),
                            regex_pattern@),
                    decreases self.characters@.len() - i,
                {
                    proof {
                        assert(dv.subrange(0, i + 1 as int).drop_last()
                            =~= dv.subrange(0, i as int));
                        assert(dv.subrange(0, i + 1 as int).last() == dv[i as int]);
                        assert(dv[i as int] == self.characters@[i as int].deep_view());
                    }
                    let c = &self.characters[i];
                    let ghost cv = dv[i as int];
                    proof {
                        assert(cv.name == c.name@);
                        assert(cv.description == c.description@);
                        assert(cv.key_traits == c.key_traits.deep_view());
                    }
                    let m = regex_is_match(&re, c.name.as_str())
                        || regex_is_match(&re, c.description.as_str())
                        || any_regex_match(&re, &c.key_traits);
                    proof {
                        assert(m == character_regex_matches(cv, regex_pattern@));
                    }
                    if m {
                        let ghost old_dv = out.deep_view();
                        out.push(clone_character(c));
                        proof {
                            assert(out.deep_view() =~~= old_dv.push(dv[i as int]));
                        }
                    }
                    i = i + 1;
                }
                proof {
                    assert(dv.subrange(0, dv.len() as int) =~= dv);
                }
                Ok(out)
            },
        }
    }

    fn get_chapter_content(&self, chapter_id: &str)
        -> (r: Result<Option<String>, StoreError>)
        ensures
            r is Ok,
    {
        if !valid_object_id_exec(chapter_id) {
            return Ok(None);
        }
        let ghost dv = self.chapters.deep_view();
        let mut i: usize = 0;
        while i < self.chapters.len()
            invariant
                i <= self.chapters@.len(),
                dv == self.chapters.deep_view(),
                valid_object_id(chapter_id@),
                chapter_index_from(dv, chapter_id@, 0) == chapter_index_from(
                    dv, chapter_id@, i as int),
            decreases self.chapters@.len() - i,
        {
            let c = &self.chapters[i];
            proof {
                assert(dv[i as int] == self.chapters@[i as int].deep_view());
            }
            let matches_id = match &c.id {
                Some(s) => str_eq(s.as_str(), chapter_id),
                None => false,
            };
            if matches_id {
                assert(chapter_index(dv, chapter_id@) == i as int);
                match &c.content {
                    Some(t) => {
                        return Ok(Some(t.clone()));
                    },
                    None => {
                        if !c.summary.as_str().is_empty() {
                            let mut s = String::new();
                            s.append("Summary: ");
                            s.append(c.summary.as_str());
                            proof {
                                assert(s@ =~= "Summary: "@ + c.summary@);
                            }
                            return Ok(Some(s));
                        } else {
                            return Ok(Some(
                                "No content or summary available for this chapter."
                                    .to_owned()));
                        }
                    },
                }
            }
            i = i + 1;
        }
        Ok(None)
    }

    fn get_character_details(&self, character_id: &str)
        -> (r: Result<Option<Character>, StoreError>)
        ensures
            r is Ok,
    {
        if !valid_object_id_exec(character_id) {
            return Ok(None);
        }
        let ghost dv = self.characters.deep_view();
        let mut i: usize = 0;
        while i < self.characters.len()
            invariant
                i <= self.characters@.len(),
                dv == self.characters.deep_view(),
                valid_object_id(character_id@),
                character_index_from(dv, character_id@, 0) == character_index_from(
                    dv, character_id@, i as int),
            decreases self.characters@.len() - i,
        {
            let c = &self.characters[i];
            proof {
                assert(dv[i as int] == self.characters@[i as int].deep_view());
            }
            let matches_id = match &c.id {
                Some(s) => str_eq(s.as_str(), character_id),
                None => false,
            };
            if matches_id {
                assert(character_index(dv, character_id@) == i as int);
                return Ok(Some(clone_character(c)));
            }
            i = i + 1;
        }
        Ok(None)
    }

    fn update_chapter_summary(&mut self, chapter_id: &str, new_summary: &str)
        -> (r: Result<(), StoreError>)
        ensures
            (r is Ok) == (valid_object_id(chapter_id@) && chapter_index(
                old(self).chapters_view(), chapter_id@) >= 0),
            (match r {
                Err(StoreError::Backend(_)) => false,
                _ => true,
            }),
    {
        if !valid_object_id_exec(chapter_id) {
            return Err(StoreError::InvalidId);
        }
        let ghost cs = self.chapters.deep_view();
        let n = self.chapters.len();
        let mut i: usize = 0;
        while i < n
            invariant
                *self == *old(self),
                n == self.chapters@.len(),
                i <= n,
                cs == self.chapters.deep_view(),
                valid_object_id(chapter_id@),
                chapter_index_from(cs, chapter_id@, 0) == chapter_index_from(
                    cs, chapter_id@, i as int),
            decreases n - i,
        {
            proof {
                assert(cs[i as int] == self.chapters@[i as int].deep_view());
            }
            let matches_id = match &self.chapters[i].id {
                Some(s) => str_eq(s.as_str(), chapter_id),
                None => false,
            };
            if matches_id {
                assert(chapter_index(cs, chapter_id@) == i as int);
                let ghost target = ChapterV { summary: new_summary@, ..cs[i as int] };
                let mut rebuilt: Vec<Chapter> = Vec::new();
                let mut j: usize = 0;
                while j < n
                    invariant
                        *self == *old(self),
                        n == self.chapters@.len(),
                        i < n,
                        j <= n,
                        cs == self.chapters.deep_view(),
                        target == (ChapterV { summary: new_summary@, ..cs[i as int] }),
                        rebuilt@.len() == j,
                        forall|k: int| 0 <= k < j ==> #[trigger] rebuilt.deep_view()[k]
                            == (if k == i { target } else { cs[k] }),
                    decreases n - j,
                {
                    proof {
                        assert(cs[j as int] == self.chapters@[j as int].deep_view());
                    }
                    let ghost prev = rebuilt@;
                    let ghost pre_dv = rebuilt.deep_view();
                    if j == i {
                        let c = &self.chapters[j];
                        let updated = Chapter {
                            id: clone_opt_string(&c.id),
                            novel_id: c.novel_id.clone(),
                            number: c.number,
                            title: c.title.clone(),
                            summary: new_summary.to_owned(),
                            key_points: clone_string_vec(&c.key_points),
                            content: clone_opt_string(&c.content),
                        };
                        proof {
                            assert(updated@ == target);
                        }
                        rebuilt.push(updated);
                    } else {
                        rebuilt.push(clone_chapter(&self.chapters[j], true));
                    }
                    proof {
                        assert forall|k: int| 0 <= k < rebuilt@.len() implies
                            #[trigger] rebuilt.deep_view()[k]
                            == (if k == i { target } else { cs[k] }) by {
                            assert(rebuilt.deep_view()[k] == rebuilt@[k].deep_view());
                            if k < j {
                                assert(rebuilt@[k] == prev[k]);
                                assert(pre_dv[k] == prev[k].deep_view());
                                assert(pre_dv[k] == (if k == i { target } else { cs[k] }));
                            }
                        }
                    }
                    j = j + 1;
                }
                self.chapters = rebuilt;
                proof {
                    assert forall|k: int| 0 <= k < self.chapters@.len() implies
                        #[trigger] self.chapters.deep_view()[k]
                        == cs.update(i as int, target)[k] by {
                    }
                    assert(self.chapters.deep_view() =~= cs.update(i as int, target));
                }
                return Ok(());
            }
            i = i + 1;
        }
        Err(StoreError::NotFound)
    }
}

} // verus!
