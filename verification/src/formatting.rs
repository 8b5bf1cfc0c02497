//! The response formatter: renders result sets into compact,
//! readable text, one template per entity kind.
//!
//! Rendering is pure and total.  Fields an upstream store left empty
//! render as fixed placeholder text rather than failing, and long
//! free-text fields are cut at a fixed character budget with an
//! ellipsis marker.

use vstd::prelude::*;

use crate::models::Chapter;
use crate::models::ChapterV;
use crate::models::Character;
use crate::models::CharacterV;
use crate::models::Novel;
use crate::models::NovelV;
use crate::models::QA;
use crate::models::QAV;
use crate::models::RelationshipV;
use crate::models::ResultRecords;
use crate::models::SearchParams;
use crate::text::dec_digits;
use crate::text::truncate_text;
use crate::text::truncated;
use crate::text::u64_to_string;

verus! {

/// The fixed reply for an empty result set, naming the collection.
pub open spec fn no_results_text(collection: Seq<char>) -> Seq<char> {
    "No results found for your query about "@ + collection + "."@
}

/// A field with a placeholder for the empty case.
pub open spec fn or_placeholder(s: Seq<char>, placeholder: Seq<char>) -> Seq<char> {
    if s.len() == 0 {
        placeholder
    } else {
        s
    }
}

/// Comma-and-space joined list.
pub open spec fn comma_join(ss: Seq<Seq<char>>) -> Seq<char>
    decreases ss.len(),
{
    if ss.len() == 0 {
        Seq::<char>::empty()
    } else if ss.len() == 1 {
        ss[0]
    } else {
        comma_join(ss.drop_last()) + ", "@ + ss.last()
    }
}

/// One novel line pair, numbered from one.
pub open spec fn novel_entry(n: NovelV, idx: int) -> Seq<char> {
    dec_digits((idx + 1) as nat) + ". \""@ + n.title + "\" by "@
        + or_placeholder(n.author, "Unknown"@) + "\n   Summary: "@
        + truncated(or_placeholder(n.summary, "No summary available"@), 150) + "\n\n"@
}

/// The numbered novel entries, in order.
pub open spec fn novels_body(items: Seq<NovelV>) -> Seq<char>
    decreases items.len(),
{
    if items.len() == 0 {
        Seq::<char>::empty()
    } else {
        novels_body(items.drop_last()) + novel_entry(items.last(), items.len() - 1)
    }
}

/// The novels template: a count line, then numbered entries.
pub open spec fn format_novels_text(items: Seq<NovelV>) -> Seq<char> {
    "Found "@ + dec_digits(items.len()) + " novels:\n\n"@ + novels_body(items)
}

/// One bulleted key-point line.
pub open spec fn key_point_lines(ps: Seq<Seq<char>>) -> Seq<char>
    decreases ps.len(),
{
    if ps.len() == 0 {
        Seq::<char>::empty()
    } else {
        key_point_lines(ps.drop_last()) + "   - "@ + ps.last() + "\n"@
    }
}

/// One chapter block: heading, summary, optional key points.
pub open spec fn chapter_entry(c: ChapterV) -> Seq<char> {
    "Chapter "@ + dec_digits(c.number as nat) + ": "@ + c.title + "\n   Summary: "@
        + or_placeholder(c.summary, "No summary available"@) + "\n\n"@
        + if c.key_points.len() > 0 {
            "   Key points:\n"@ + key_point_lines(c.key_points) + "\n"@
        } else {
            Seq::<char>::empty()
        }
}

/// The chapter blocks, in order.
pub open spec fn chapters_body(items: Seq<ChapterV>) -> Seq<char>
    decreases items.len(),
{
    if items.len() == 0 {
        Seq::<char>::empty()
    } else {
        chapters_body(items.drop_last()) + chapter_entry(items.last())
    }
}

/// The chapters template: a count line, then chapter blocks.
pub open spec fn format_chapters_text(items: Seq<ChapterV>) -> Seq<char> {
    "Found "@ + dec_digits(items.len()) + " chapters:\n\n"@ + chapters_body(items)
}

/// One bulleted relationship line.
pub open spec fn relationship_lines(rs: Seq<RelationshipV>) -> Seq<char>
    decreases rs.len(),
{
    if rs.len() == 0 {
        Seq::<char>::empty()
    } else {
        relationship_lines(rs.drop_last()) + "   - "@ + rs.last().character_name + " ("@
            + rs.last().relationship_type + ")\n"@
    }
}

/// One character block, numbered from one.
pub open spec fn character_entry(c: CharacterV, idx: int) -> Seq<char> {
    dec_digits((idx + 1) as nat) + ". "@ + c.name + " ("@
        + or_placeholder(c.role, "Unknown role"@) + ")\n   Description: "@
        + or_placeholder(c.description, "No description available"@) + "\n"@
        + (if c.key_traits.len() > 0 {
            "   Key traits: "@ + comma_join(c.key_traits) + "\n"@
        } else {
            Seq::<char>::empty()
        })
        + (if c.relationships.len() > 0 {
            "   Relationships:\n"@ + relationship_lines(c.relationships)
        } else {
            Seq::<char>::empty()
        })
        + "\n"@
}

/// The numbered character blocks, in order.
pub open spec fn characters_body(items: Seq<CharacterV>) -> Seq<char>
    decreases items.len(),
{
    if items.len() == 0 {
        Seq::<char>::empty()
    } else {
        characters_body(items.drop_last()) + character_entry(items.last(), items.len() - 1)
    }
}

/// The characters template: a count line, then character blocks.
pub open spec fn format_characters_text(items: Seq<CharacterV>) -> Seq<char> {
    "Found "@ + dec_digits(items.len()) + " characters:\n\n"@ + characters_body(items)
}

/// One question/answer pair, numbered from one.
pub open spec fn qa_entry(q: QAV, idx: int) -> Seq<char> {
    "Q"@ + dec_digits((idx + 1) as nat) + ": "@ + q.question + "\nA: "@ + q.answer
        + "\n\n"@
}

/// The numbered question/answer pairs, in order.
pub open spec fn qa_body(items: Seq<QAV>) -> Seq<char>
    decreases items.len(),
{
    if items.len() == 0 {
        Seq::<char>::empty()
    } else {
        qa_body(items.drop_last()) + qa_entry(items.last(), items.len() - 1)
    }
}

/// The question/answer template: a count line, then numbered pairs.
pub open spec fn format_qa_text(items: Seq<QAV>) -> Seq<char> {
    "Found "@ + dec_digits(items.len()) + " Q&A entries:\n\n"@ + qa_body(items)
}

/// What `format_content_for_llm` renders: the empty result set yields
/// the collection-named no-results reply, anything else the per-kind
/// template.
pub open spec fn content_for_llm_text(data: ResultRecords, collection: Seq<char>)
    -> Seq<char> {
    match data {
        ResultRecords::Novels(rs) => if rs@.len() == 0 {
            no_results_text(collection)
        } else {
            format_novels_text(rs.deep_view())
        },
        ResultRecords::Chapters(rs) => if rs@.len() == 0 {
            no_results_text(collection)
        } else {
            format_chapters_text(rs.deep_view())
        },
        ResultRecords::Characters(rs) => if rs@.len() == 0 {
            no_results_text(collection)
        } else {
            format_characters_text(rs.deep_view())
        },
        ResultRecords::QaEntries(rs) => if rs@.len() == 0 {
            no_results_text(collection)
        } else {
            format_qa_text(rs.deep_view())
        },
    }
}

/// Appends the decimal rendering of `n`.
fn append_count(out: &mut String, n: u64)
    ensures
        final(out)@ == old(out)@ + dec_digits(n as nat),
{
    let digits = u64_to_string(n);
    out.append(digits.as_str());
}

/// Appends a field, or its placeholder when the field is empty.
fn append_or_placeholder(out: &mut String, field: &str, placeholder: &str)
    ensures
        final(out)@ == old(out)@ + or_placeholder(field@, placeholder@),
{
    if field.is_empty() {
        out.append(placeholder);
    } else {
        out.append(field);
    }
}

/// Renders one numbered novel entry.
#[verifier::rlimit(50)]
fn novel_entry_exec(n: &Novel, idx: usize) -> (r: String)
    requires
        idx < usize::MAX,
    ensures
        r@ == novel_entry(n@, idx as int),
{
    let mut out = String::new();
    append_count(&mut out, (idx as u64) + 1);
    out.append(". \"");
    out.append(n.title.as_str());
    out.append("\" by ");
    append_or_placeholder(&mut out, n.author.as_str(), "Unknown");
    out.append("\n   Summary: ");
    let summary = if n.summary.as_str().is_empty() {
        truncate_text("No summary available", 150)
    } else {
        truncate_text(n.summary.as_str(), 150)
    };
    out.append(summary.as_str());
    out.append("\n\n");
    proof {
        assert(out@ =~= novel_entry(n@, idx as int));
    }
    out
}

/// Renders a numbered list of novels with authors and truncated
/// summaries.
pub fn format_novels(items: &Vec<Novel>) -> (r: String)
    ensures
        r@ == format_novels_text(items.deep_view()),
{
    let ghost dv = items.deep_view();
    let mut out = String::new();
    out.append("Found ");
    append_count(&mut out, items.len() as u64);
    out.append(" novels:\n\n");
    let ghost head = out@;
    proof {
        assert(dv.subrange(0, 0) =~= Seq::<NovelV>::empty());
    }
    let mut i: usize = 0;
    while i < items.len()
        invariant
            i <= items@.len(),
            dv == items.deep_view(),
            head == "Found "@ + dec_digits(dv.len()) + " novels:\n\n"@,
            out@ == head + novels_body(dv.subrange(0, i as int)),
        decreases items@.len() - i,
    {
        let entry = novel_entry_exec(&items[i], i);
        out.append(entry.as_str());
        proof {
            assert(dv.subrange(0, i + 1 as int).drop_last() =~= dv.subrange(0, i as int));
            assert(dv.subrange(0, i + 1 as int).last() == dv[i as int]);
            assert(out@ =~= head + novels_body(dv.subrange(0, i + 1 as int)));
        }
        i = i + 1;
    }
    proof {
        assert(dv.subrange(0, dv.len() as int) =~= dv);
        assert(out@ =~= format_novels_text(dv));
    }
    out
}

/// Renders one chapter block.
#[verifier::rlimit(50)]
fn chapter_entry_exec(c: &Chapter) -> (r: String)
    ensures
        r@ == chapter_entry(c@),
{
    let mut out = String::new();
    out.append("Chapter ");
    append_count(&mut out, c.number as u64);
    out.append(": ");
    out.append(c.title.as_str());
    out.append("\n   Summary: ");
    append_or_placeholder(&mut out, c.summary.as_str(), "No summary available");
    out.append("\n\n");
    if c.key_points.len() > 0 {
        out.append("   Key points:\n");
        let ghost mid = out@;
        let ghost kps = c.key_points.deep_view();
        proof {
            assert(kps.subrange(0, 0) =~= Seq::<Seq<char>>::empty());
        }
        let mut k: usize = 0;
        while k < c.key_points.len()
            invariant
                k <= c.key_points@.len(),
                kps == c.key_points.deep_view(),
                out@ == mid + key_point_lines(kps.subrange(0, k as int)),
            decreases c.key_points@.len() - k,
        {
            out.append("   - ");
            out.append(c.key_points[k].as_str());
            out.append("\n");
            proof {
                assert(kps.subrange(0, k + 1 as int).drop_last()
                    =~= kps.subrange(0, k as int));
                assert(kps.subrange(0, k + 1 as int).last() == kps[k as int]);
                assert(out@ =~= mid + key_point_lines(kps.subrange(0, k + 1 as int)));
            }
            k = k + 1;
        }
        out.append("\n");
        proof {
            assert(kps.subrange(0, kps.len() as int) =~= kps);
        }
    }
    proof {
        assert(out@ =~= chapter_entry(c@));
    }
    out
}

/// Renders chapter headings with summaries and key points.
pub fn format_chapters(items: &Vec<Chapter>) -> (r: String)
    ensures
        r@ == format_chapters_text(items.deep_view()),
{
    let ghost dv = items.deep_view();
    let mut out = String::new();
    out.append("Found ");
    append_count(&mut out, items.len() as u64);
    out.append(" chapters:\n\n");
    let ghost head = out@;
    proof {
        assert(dv.subrange(0, 0) =~= Seq::<ChapterV>::empty());
    }
    let mut i: usize = 0;
    while i < items.len()
        invariant
            i <= items@.len(),
            dv == items.deep_view(),
            head == "Found "@ + dec_digits(dv.len()) + " chapters:\n\n"@,
            out@ == head + chapters_body(dv.subrange(0, i as int)),
        decreases items@.len() - i,
    {
        let entry = chapter_entry_exec(&items[i]);
        out.append(entry.as_str());
        proof {
            assert(dv.subrange(0, i + 1 as int).drop_last() =~= dv.subrange(0, i as int));
            assert(dv.subrange(0, i + 1 as int).last() == dv[i as int]);
            assert(out@ =~= head + chapters_body(dv.subrange(0, i + 1 as int)));
        }
        i = i + 1;
    }
    proof {
        assert(dv.subrange(0, dv.len() as int) =~= dv);
        assert(out@ =~= format_chapters_text(dv));
    }
    out
}

/// Renders one numbered character block.
#[verifier::rlimit(100)]
fn character_entry_exec(c: &Character, idx: usize) -> (r: String)
    requires
        idx < usize::MAX,
    ensures
        r@ == character_entry(c@, idx as int),
{
    let mut out = String::new();
    append_count(&mut out, (idx as u64) + 1);
    out.append(". ");
    out.append(c.name.as_str());
    out.append(" (");
    append_or_placeholder(&mut out, c.role.as_str(), "Unknown role");
    out.append(")\n   Description: ");
    append_or_placeholder(&mut out, c.description.as_str(), "No description available");
    out.append("\n");
    if c.key_traits.len() > 0 {
        out.append("   Key traits: ");
        let ghost mid = out@;
        let ghost ts = c.key_traits.deep_view();
        proof {
            assert(ts.subrange(0, 1) =~= seq![ts[0]]);
        }
        out.append(c.key_traits[0].as_str());
        proof {
            assert(out@ =~= mid + comma_join(ts.subrange(0, 1)));
        }
        let mut k: usize = 1;
        while k < c.key_traits.len()
            invariant
                1 <= k <= c.key_traits@.len(),
                ts == c.key_traits.deep_view(),
                out@ == mid + comma_join(ts.subrange(0, k as int)),
            decreases c.key_traits@.len() - k,
        {
            out.append(", ");
            out.append(c.key_traits[k].as_str());
            proof {
                assert(ts.subrange(0, k + 1 as int).drop_last()
                    =~= ts.subrange(0, k as int));
                assert(ts.subrange(0, k + 1 as int).last() == ts[k as int]);
                assert(out@ =~= mid + comma_join(ts.subrange(0, k + 1 as int)));
            }
            k = k + 1;
        }
        out.append("\n");
        proof {
            assert(ts.subrange(0, ts.len() as int) =~= ts);
        }
    }
    if c.relationships.len() > 0 {
        out.append("   Relationships:\n");
        let ghost mid = out@;
        let ghost rs = c.relationships.deep_view();
        proof {
            assert(rs.subrange(0, 0) =~= Seq::<RelationshipV>::empty());
        }
        let mut k: usize = 0;
        while k < c.relationships.len()
            invariant
                k <= c.relationships@.len(),
                rs == c.relationships.deep_view(),
                out@ == mid + relationship_lines(rs.subrange(0, k as int)),
            decreases c.relationships@.len() - k,
        {
            let e = &c.relationships[k];
            out.append("   - ");
            out.append(e.character_name.as_str());
            out.append(" (");
            out.append(e.relationship_type.as_str());
            out.append(")\n");
            proof {
                assert(rs.subrange(0, k + 1 as int).drop_last()
                    =~= rs.subrange(0, k as int));
                assert(rs.subrange(0, k + 1 as int).last() == rs[k as int]);
                assert(rs[k as int] == c.relationships@[k as int].deep_view());
                assert(out@ =~= mid + relationship_lines(rs.subrange(0, k + 1 as int)));
            }
            k = k + 1;
        }
        proof {
            assert(rs.subrange(0, rs.len() as int) =~= rs);
        }
    }
    out.append("\n");
    proof {
        assert(out@ =~= character_entry(c@, idx as int));
    }
    out
}

/// Renders a numbered list of characters with roles, descriptions,
/// traits and relationships.
pub fn format_characters(items: &Vec<Character>) -> (r: String)
    ensures
        r@ == format_characters_text(items.deep_view()),
{
    let ghost dv = items.deep_view();
    let mut out = String::new();
    out.append("Found ");
    append_count(&mut out, items.len() as u64);
    out.append(" characters:\n\n");
    let ghost head = out@;
    proof {
        assert(dv.subrange(0, 0) =~= Seq::<CharacterV>::empty());
    }
    let mut i: usize = 0;
    while i < items.len()
        invariant
            i <= items@.len(),
            dv == items.deep_view(),
            head == "Found "@ + dec_digits(dv.len()) + " characters:\n\n"@,
            out@ == head + characters_body(dv.subrange(0, i as int)),
        decreases items@.len() - i,
    {
        let entry = character_entry_exec(&items[i], i);
        out.append(entry.as_str());
        proof {
            assert(dv.subrange(0, i + 1 as int).drop_last() =~= dv.subrange(0, i as int));
            assert(dv.subrange(0, i + 1 as int).last() == dv[i as int]);
            assert(out@ =~= head + characters_body(dv.subrange(0, i + 1 as int)));
        }
        i = i + 1;
    }
    proof {
        assert(dv.subrange(0, dv.len() as int) =~= dv);
        assert(out@ =~= format_characters_text(dv));
    }
    out
}

/// Renders one numbered question/answer pair.
fn qa_entry_exec(q: &QA, idx: usize) -> (r: String)
    requires
        idx < usize::MAX,
    ensures
        r@ == qa_entry(q@, idx as int),
{
    let mut out = String::new();
    out.append("Q");
    append_count(&mut out, (idx as u64) + 1);
    out.append(": ");
    out.append(q.question.as_str());
    out.append("\nA: ");
    out.append(q.answer.as_str());
    out.append("\n\n");
    proof {
        assert(out@ =~= qa_entry(q@, idx as int));
    }
    out
}

/// Renders numbered question/answer pairs.
pub fn format_qa(items: &Vec<QA>) -> (r: String)
    ensures
        r@ == format_qa_text(items.deep_view()),
{
    let ghost dv = items.deep_view();
    let mut out = String::new();
    out.append("Found ");
    append_count(&mut out, items.len() as u64);
    out.append(" Q&A entries:\n\n");
    let ghost head = out@;
    proof {
        assert(dv.subrange(0, 0) =~= Seq::<QAV>::empty());
    }
    let mut i: usize = 0;
    while i < items.len()
        invariant
            i <= items@.len(),
            dv == items.deep_view(),
            head == "Found "@ + dec_digits(dv.len()) + " Q&A entries:\n\n"@,
            out@ == head + qa_body(dv.subrange(0, i as int)),
        decreases items@.len() - i,
    {
        let entry = qa_entry_exec(&items[i], i);
        out.append(entry.as_str());
        proof {
            assert(dv.subrange(0, i + 1 as int).drop_last() =~= dv.subrange(0, i as int));
            assert(dv.subrange(0, i + 1 as int).last() == dv[i as int]);
            assert(out@ =~= head + qa_body(dv.subrange(0, i + 1 as int)));
        }
        i = i + 1;
    }
    proof {
        assert(dv.subrange(0, dv.len() as int) =~= dv);
        assert(out@ =~= format_qa_text(dv));
    }
    out
}

/// Renders the no-results reply for a collection.
pub fn no_results_message(collection: &str) -> (r: String)
    ensures
        r@ == no_results_text(collection@),
{
    let mut out = String::new();
    out.append("No results found for your query about ");
    out.append(collection);
    out.append(".");
    proof {
        assert(out@ =~= no_results_text(collection@));
    }
    out
}

/// Renders a result set for the language-model client: the per-kind
/// template, or the collection-named no-results reply when the set is
/// empty.
pub fn format_content_for_llm(data: &ResultRecords, params: &SearchParams) -> (r: String)
    ensures
        r@ == content_for_llm_text(*data, params.collection@),
{
    match data {
        ResultRecords::Novels(rs) => {
            if rs.len() == 0 {
                no_results_message(params.collection.as_str())
            } else {
                format_novels(rs)
            }
        },
        ResultRecords::Chapters(rs) => {
            if rs.len() == 0 {
                no_results_message(params.collection.as_str())
            } else {
                format_chapters(rs)
            }
        },
        ResultRecords::Characters(rs) => {
            if rs.len() == 0 {
                no_results_message(params.collection.as_str())
            } else {
                format_characters(rs)
            }
        },
        ResultRecords::QaEntries(rs) => {
            if rs.len() == 0 {
                no_results_message(params.collection.as_str())
            } else {
                format_qa(rs)
            }
        },
    }
}

/// The empty result set always renders as the non-empty,
/// collection-named no-results reply, whatever the entity kind.
pub proof fn lemma_empty_format_is_no_results(data: ResultRecords, collection: Seq<char>)
    requires
        match data {
            ResultRecords::Novels(rs) => rs@.len() == 0,
            ResultRecords::Chapters(rs) => rs@.len() == 0,
            ResultRecords::Characters(rs) => rs@.len() == 0,
            ResultRecords::QaEntries(rs) => rs@.len() == 0,
        },
    ensures
        content_for_llm_text(data, collection) == no_results_text(collection),
        content_for_llm_text(data, collection).len() > 0,
        crate::text::contains_seq(content_for_llm_text(data, collection), collection),
{
    let text = no_results_text(collection);
    assert(text.subrange(38, 38 + collection.len() as int) =~= collection) by {
        reveal_strlit("No results found for your query about ");
        reveal_strlit(".");
    }
    assert(crate::text::is_sub_at(text, collection, 38)) by {
        reveal_strlit("No results found for your query about ");
        reveal_strlit(".");
    }
    assert(text.len() > 0) by {
        reveal_strlit("No results found for your query about ");
        reveal_strlit(".");
    }
}

/// One compact novel line of the combined summary.
pub open spec fn novel_summary_line(n: NovelV, idx: int) -> Seq<char> {
    dec_digits((idx + 1) as nat) + ". "@ + or_placeholder(n.title, "Unknown title"@)
        + " by "@ + or_placeholder(n.author, "Unknown author"@)
}

/// The first lines of the novels section, newline-joined.
pub open spec fn novel_summary_lines(items: Seq<NovelV>) -> Seq<char>
    decreases items.len(),
{
    if items.len() == 0 {
        Seq::<char>::empty()
    } else if items.len() == 1 {
        novel_summary_line(items[0], 0)
    } else {
        novel_summary_lines(items.drop_last()) + "\n"@ + novel_summary_line(
            items.last(), items.len() - 1)
    }
}

/// One compact character line of the combined summary.
pub open spec fn character_summary_line(c: CharacterV, idx: int) -> Seq<char> {
    dec_digits((idx + 1) as nat) + ". "@ + or_placeholder(c.name, "Unknown"@) + " from "@
        + or_placeholder(c.novel_id, "Unknown novel"@)
}

/// The first lines of the characters section, newline-joined.
pub open spec fn character_summary_lines(items: Seq<CharacterV>) -> Seq<char>
    decreases items.len(),
{
    if items.len() == 0 {
        Seq::<char>::empty()
    } else if items.len() == 1 {
        character_summary_line(items[0], 0)
    } else {
        character_summary_lines(items.drop_last()) + "\n"@ + character_summary_line(
            items.last(), items.len() - 1)
    }
}

/// One compact chapter line of the combined summary.
pub open spec fn chapter_summary_line(c: ChapterV, idx: int) -> Seq<char> {
    dec_digits((idx + 1) as nat) + ". "@ + or_placeholder(c.title, "Untitled"@) + " from "@
        + or_placeholder(c.novel_id, "Unknown novel"@)
}

/// The first lines of the chapters section, newline-joined.
pub open spec fn chapter_summary_lines(items: Seq<ChapterV>) -> Seq<char>
    decreases items.len(),
{
    if items.len() == 0 {
        Seq::<char>::empty()
    } else if items.len() == 1 {
        chapter_summary_line(items[0], 0)
    } else {
        chapter_summary_lines(items.drop_last()) + "\n"@ + chapter_summary_line(
            items.last(), items.len() - 1)
    }
}

/// One compact question line of the combined summary.
pub open spec fn qa_summary_line(q: QAV, idx: int) -> Seq<char> {
    dec_digits((idx + 1) as nat) + ". "@ + truncated(or_placeholder(
        q.question, "Unknown question"@), 100)
}

/// The first lines of the question/answer section, newline-joined.
pub open spec fn qa_summary_lines(items: Seq<QAV>) -> Seq<char>
    decreases items.len(),
{
    if items.len() == 0 {
        Seq::<char>::empty()
    } else if items.len() == 1 {
        qa_summary_line(items[0], 0)
    } else {
        qa_summary_lines(items.drop_last()) + "\n"@ + qa_summary_line(
            items.last(), items.len() - 1)
    }
}

/// The smaller of two lengths.
pub open spec fn min_nat(a: nat, b: nat) -> nat {
    if a <= b {
        a
    } else {
        b
    }
}

/// The novels section of the combined summary, capped at three rows.
pub open spec fn novels_section(ns: Seq<NovelV>) -> Seq<char> {
    "NOVELS (top "@ + dec_digits(min_nat(ns.len(), 3)) + " results):\n"@
        + novel_summary_lines(crate::db_service::first_n(ns, 3))
}

/// The characters section of the combined summary, capped at three
/// rows.
pub open spec fn characters_section(cs: Seq<CharacterV>) -> Seq<char> {
    "CHARACTERS (top "@ + dec_digits(min_nat(cs.len(), 3)) + " results):\n"@
        + character_summary_lines(crate::db_service::first_n(cs, 3))
}

/// The chapters section of the combined summary, capped at three rows.
pub open spec fn chapters_section(cs: Seq<ChapterV>) -> Seq<char> {
    "CHAPTERS (top "@ + dec_digits(min_nat(cs.len(), 3)) + " results):\n"@
        + chapter_summary_lines(crate::db_service::first_n(cs, 3))
}

/// The question/answer section of the combined summary, capped at
/// three rows.
pub open spec fn qa_section(qs: Seq<QAV>) -> Seq<char> {
    "Q&A (top "@ + dec_digits(min_nat(qs.len(), 3)) + " results):\n"@
        + qa_summary_lines(crate::db_service::first_n(qs, 3))
}

/// The non-empty sections of the combined summary, in fixed order:
/// novels, characters, chapters, questions.
pub open spec fn all_sections(ns: Seq<NovelV>, crs: Seq<CharacterV>, chs: Seq<ChapterV>,
    qs: Seq<QAV>) -> Seq<Seq<char>> {
    (if ns.len() > 0 { seq![novels_section(ns)] } else { seq![] })
        + (if crs.len() > 0 { seq![characters_section(crs)] } else { seq![] })
        + (if chs.len() > 0 { seq![chapters_section(chs)] } else { seq![] })
        + (if qs.len() > 0 { seq![qa_section(qs)] } else { seq![] })
}

/// Sections joined by blank lines.
pub open spec fn join_sections(ss: Seq<Seq<char>>) -> Seq<char>
    decreases ss.len(),
{
    if ss.len() == 0 {
        Seq::<char>::empty()
    } else if ss.len() == 1 {
        ss[0]
    } else {
        join_sections(ss.drop_last()) + "\n\n"@ + ss.last()
    }
}

/// The combined multi-collection summary: an aggregate count and the
/// per-collection sections, or a fixed no-results reply.
pub open spec fn all_results_text(ns: Seq<NovelV>, crs: Seq<CharacterV>, chs: Seq<ChapterV>,
    qs: Seq<QAV>) -> Seq<char> {
    let ss = all_sections(ns, crs, chs, qs);
    if ss.len() == 0 {
        "No results found matching your query."@
    } else {
        "Found "@ + dec_digits((ns.len() + crs.len() + chs.len() + qs.len()) as nat)
            + " results matching your query. Here's a summary:\n\n"@ + join_sections(ss)
    }
}

/// Renders the novels section.
fn novels_section_exec(ns: &Vec<Novel>) -> (r: String)
    requires
        ns@.len() > 0,
    ensures
        r@ == novels_section(ns.deep_view()),
{
    let ghost dv = ns.deep_view();
    let cap: usize = if ns.len() <= 3 {
        ns.len()
    } else {
        3
    };
    let mut out = String::new();
    out.append("NOVELS (top ");
    append_count(&mut out, cap as u64);
    out.append(" results):\n");
    let ghost head = out@;
    let ghost capped = crate::db_service::first_n(dv, 3);
    proof {
        assert(capped.len() == cap);
        assert(capped.subrange(0, 1) =~= seq![capped[0]]);
        assert(capped[0] == dv[0]);
    }
    let entry = novel_summary_line_exec(&ns[0], 0);
    out.append(entry.as_str());
    proof {
        assert(out@ =~= head + novel_summary_lines(capped.subrange(0, 1)));
    }
    let mut i: usize = 1;
    while i < cap
        invariant
            1 <= i <= cap,
            cap == capped.len(),
            cap <= ns@.len(),
            dv == ns.deep_view(),
            capped == crate::db_service::first_n(dv, 3),
            out@ == head + novel_summary_lines(capped.subrange(0, i as int)),
        decreases cap - i,
    {
        out.append("\n");
        let entry = novel_summary_line_exec(&ns[i], i);
        out.append(entry.as_str());
        proof {
            assert(capped.subrange(0, i + 1 as int).drop_last()
                =~= capped.subrange(0, i as int));
            assert(capped.subrange(0, i + 1 as int).last() == capped[i as int]);
            assert(capped[i as int] == dv[i as int]);
            assert(out@ =~= head + novel_summary_lines(capped.subrange(0, i + 1 as int)));
        }
        i = i + 1;
    }
    proof {
        assert(capped.subrange(0, capped.len() as int) =~= capped);
        assert(out@ =~= novels_section(dv));
    }
    out
}

/// Renders one compact novel line.
fn novel_summary_line_exec(n: &Novel, idx: usize) -> (r: String)
    requires
        idx < usize::MAX,
    ensures
        r@ == novel_summary_line(n@, idx as int),
{
    let mut out = String::new();
    append_count(&mut out, (idx as u64) + 1);
    out.append(". ");
    append_or_placeholder(&mut out, n.title.as_str(), "Unknown title");
    out.append(" by ");
    append_or_placeholder(&mut out, n.author.as_str(), "Unknown author");
    proof {
        assert(out@ =~= novel_summary_line(n@, idx as int));
    }
    out
}

/// Renders one compact character line.
fn character_summary_line_exec(c: &Character, idx: usize) -> (r: String)
    requires
        idx < usize::MAX,
    ensures
        r@ == character_summary_line(c@, idx as int),
{
    let mut out = String::new();
    append_count(&mut out, (idx as u64) + 1);
    out.append(". ");
    append_or_placeholder(&mut out, c.name.as_str(), "Unknown");
    out.append(" from ");
    append_or_placeholder(&mut out, c.novel_id.as_str(), "Unknown novel");
    proof {
        assert(out@ =~= character_summary_line(c@, idx as int));
    }
    out
}

/// Renders one compact chapter line.
fn chapter_summary_line_exec(c: &Chapter, idx: usize) -> (r: String)
    requires
        idx < usize::MAX,
    ensures
        r@ == chapter_summary_line(c@, idx as int),
{
    let mut out = String::new();
    append_count(&mut out, (idx as u64) + 1);
    out.append(". ");
    append_or_placeholder(&mut out, c.title.as_str(), "Untitled");
    out.append(" from ");
    append_or_placeholder(&mut out, c.novel_id.as_str(), "Unknown novel");
    proof {
        assert(out@ =~= chapter_summary_line(c@, idx as int));
    }
    out
}

/// Renders one compact question line.
fn qa_summary_line_exec(q: &QA, idx: usize) -> (r: String)
    requires
        idx < usize::MAX,
    ensures
        r@ == qa_summary_line(q@, idx as int),
{
    let mut out = String::new();
    append_count(&mut out, (idx as u64) + 1);
    out.append(". ");
    let question = if q.question.as_str().is_empty() {
        truncate_text("Unknown question", 100)
    } else {
        truncate_text(q.question.as_str(), 100)
    };
    out.append(question.as_str());
    proof {
        assert(out@ =~= qa_summary_line(q@, idx as int));
    }
    out
}

/// Renders the characters section.
fn characters_section_exec(cs: &Vec<Character>) -> (r: String)
    requires
        cs@.len() > 0,
    ensures
        r@ == characters_section(cs.deep_view()),
{
    let ghost dv = cs.deep_view();
    let cap: usize = if cs.len() <= 3 {
        cs.len()
    } else {
        3
    };
    let mut out = String::new();
    out.append("CHARACTERS (top ");
    append_count(&mut out, cap as u64);
    out.append(" results):\n");
    let ghost head = out@;
    let ghost capped = crate::db_service::first_n(dv, 3);
    proof {
        assert(capped.len() == cap);
        assert(capped.subrange(0, 1) =~= seq![capped[0]]);
        assert(capped[0] == dv[0]);
    }
    let entry = character_summary_line_exec(&cs[0], 0);
    out.append(entry.as_str());
    proof {
        assert(out@ =~= head + character_summary_lines(capped.subrange(0, 1)));
    }
    let mut i: usize = 1;
    while i < cap
        invariant
            1 <= i <= cap,
            cap == capped.len(),
            cap <= cs@.len(),
            dv == cs.deep_view(),
            capped == crate::db_service::first_n(dv, 3),
            out@ == head + character_summary_lines(capped.subrange(0, i as int)),
        decreases cap - i,
    {
        out.append("\n");
        let entry = character_summary_line_exec(&cs[i], i);
        out.append(entry.as_str());
        proof {
            assert(capped.subrange(0, i + 1 as int).drop_last()
                =~= capped.subrange(0, i as int));
            assert(capped.subrange(0, i + 1 as int).last() == capped[i as int]);
            assert(capped[i as int] == dv[i as int]);
            assert(out@ =~= head + character_summary_lines(
                capped.subrange(0, i + 1 as int)));
        }
        i = i + 1;
    }
    proof {
        assert(capped.subrange(0, capped.len() as int) =~= capped);
        assert(out@ =~= characters_section(dv));
    }
    out
}

/// Renders the chapters section.
fn chapters_section_exec(cs: &Vec<Chapter>) -> (r: String)
    requires
        cs@.len() > 0,
    ensures
        r@ == chapters_section(cs.deep_view()),
{
    let ghost dv = cs.deep_view();
    let cap: usize = if cs.len() <= 3 {
        cs.len()
    } else {
        3
    };
    let mut out = String::new();
    out.append("CHAPTERS (top ");
    append_count(&mut out, cap as u64);
    out.append(" results):\n");
    let ghost head = out@;
    let ghost capped = crate::db_service::first_n(dv, 3);
    proof {
        assert(capped.len() == cap);
        assert(capped.subrange(0, 1) =~= seq![capped[0]]);
        assert(capped[0] == dv[0]);
    }
    let entry = chapter_summary_line_exec(&cs[0], 0);
    out.append(entry.as_str());
    proof {
        assert(out@ =~= head + chapter_summary_lines(capped.subrange(0, 1)));
    }
    let mut i: usize = 1;
    while i < cap
        invariant
            1 <= i <= cap,
            cap == capped.len(),
            cap <= cs@.len(),
            dv == cs.deep_view(),
            capped == crate::db_service::first_n(dv, 3),
            out@ == head + chapter_summary_lines(capped.subrange(0, i as int)),
        decreases cap - i,
    {
        out.append("\n");
        let entry = chapter_summary_line_exec(&cs[i], i);
        out.append(entry.as_str());
        proof {
            assert(capped.subrange(0, i + 1 as int).drop_last()
                =~= capped.subrange(0, i as int));
            assert(capped.subrange(0, i + 1 as int).last() == capped[i as int]);
            assert(capped[i as int] == dv[i as int]);
            assert(out@ =~= head + chapter_summary_lines(capped.subrange(0, i + 1 as int)));
        }
        i = i + 1;
    }
    proof {
        assert(capped.subrange(0, capped.len() as int) =~= capped);
        assert(out@ =~= chapters_section(dv));
    }
    out
}

/// Renders the question/answer section.
fn qa_section_exec(qs: &Vec<QA>) -> (r: String)
    requires
        qs@.len() > 0,
    ensures
        r@ == qa_section(qs.deep_view()),
{
    let ghost dv = qs.deep_view();
    let cap: usize = if qs.len() <= 3 {
        qs.len()
    } else {
        3
    };
    let mut out = String::new();
    out.append("Q&A (top ");
    append_count(&mut out, cap as u64);
    out.append(" results):\n");
    let ghost head = out@;
    let ghost capped = crate::db_service::first_n(dv, 3);
    proof {
        assert(capped.len() == cap);
        assert(capped.subrange(0, 1) =~= seq![capped[0]]);
        assert(capped[0] == dv[0]);
    }
    let entry = qa_summary_line_exec(&qs[0], 0);
    out.append(entry.as_str());
    proof {
        assert(out@ =~= head + qa_summary_lines(capped.subrange(0, 1)));
    }
    let mut i: usize = 1;
    while i < cap
        invariant
            1 <= i <= cap,
            cap == capped.len(),
            cap <= qs@.len(),
            dv == qs.deep_view(),
            capped == crate::db_service::first_n(dv, 3),
            out@ == head + qa_summary_lines(capped.subrange(0, i as int)),
        decreases cap - i,
    {
        out.append("\n");
        let entry = qa_summary_line_exec(&qs[i], i);
        out.append(entry.as_str());
        proof {
            assert(capped.subrange(0, i + 1 as int).drop_last()
                =~= capped.subrange(0, i as int));
            assert(capped.subrange(0, i + 1 as int).last() == capped[i as int]);
            assert(capped[i as int] == dv[i as int]);
            assert(out@ =~= head + qa_summary_lines(capped.subrange(0, i + 1 as int)));
        }
        i = i + 1;
    }
    proof {
        assert(capped.subrange(0, capped.len() as int) =~= capped);
        assert(out@ =~= qa_section(dv));
    }
    out
}

/// Renders the combined multi-collection summary: per-collection
/// sections capped at three rows each, under an aggregate total.
#[verifier::rlimit(100)]
pub fn format_all_results(results: &crate::models::SearchAllResults) -> (r: String)
    ensures
        r@ == all_results_text(results.novels.deep_view(), results.characters.deep_view(),
            results.chapters.deep_view(), results.qa_entries.deep_view()),
{
    let ghost nsv = results.novels.deep_view();
    let ghost crv = results.characters.deep_view();
    let ghost chv = results.chapters.deep_view();
    let ghost qsv = results.qa_entries.deep_view();
    let ghost ss = all_sections(nsv, crv, chv, qsv);
    let mut sections: Vec<String> = Vec::new();
    if results.novels.len() > 0 {
        sections.push(novels_section_exec(&results.novels));
    }
    if results.characters.len() > 0 {
        sections.push(characters_section_exec(&results.characters));
    }
    if results.chapters.len() > 0 {
        sections.push(chapters_section_exec(&results.chapters));
    }
    if results.qa_entries.len() > 0 {
        sections.push(qa_section_exec(&results.qa_entries));
    }
    proof {
        assert(sections.deep_view() =~~= ss);
    }
    if sections.len() == 0 {
        let r = "No results found matching your query.".to_owned();
        return r;
    }
    let total: u128 = (results.novels.len() as u128) + (results.characters.len() as u128)
        + (results.chapters.len() as u128) + (results.qa_entries.len() as u128);
    let mut out = String::new();
    out.append("Found ");
    let digits = crate::text::u128_to_string(total);
    out.append(digits.as_str());
    out.append(" results matching your query. Here's a summary:\n\n");
    let ghost head = out@;
    proof {
        assert(ss.subrange(0, 1) =~= seq![ss[0]]);
    }
    out.append(sections[0].as_str());
    proof {
        assert(out@ =~= head + join_sections(ss.subrange(0, 1)));
    }
    let mut i: usize = 1;
    while i < sections.len()
        invariant
            1 <= i <= sections@.len(),
            sections@.len() == ss.len(),
            sections.deep_view() == ss,
            out@ == head + join_sections(ss.subrange(0, i as int)),
        decreases sections@.len() - i,
    {
        out.append("\n\n");
        out.append(sections[i].as_str());
        proof {
            assert(ss.subrange(0, i + 1 as int).drop_last() =~= ss.subrange(0, i as int));
            assert(ss.subrange(0, i + 1 as int).last() == ss[i as int]);
            assert(out@ =~= head + join_sections(ss.subrange(0, i + 1 as int)));
        }
        i = i + 1;
    }
    proof {
        assert(ss.subrange(0, ss.len() as int) =~= ss);
        assert(out@ =~= all_results_text(nsv, crv, chv, qsv));
    }
    out
}

/// One relationship line of the single-character rendering.
pub open spec fn detail_rel_line(subject: Seq<char>, e: RelationshipV) -> Seq<char> {
    "- "@ + subject + " is "@ + or_placeholder(e.relationship_type, "connected to"@)
        + " "@ + or_placeholder(e.character_name, "Unknown"@)
}

/// The relationship lines, newline-joined.
pub open spec fn detail_rel_lines(subject: Seq<char>, rs: Seq<RelationshipV>) -> Seq<char>
    decreases rs.len(),
{
    if rs.len() == 0 {
        Seq::<char>::empty()
    } else if rs.len() == 1 {
        detail_rel_line(subject, rs[0])
    } else {
        detail_rel_lines(subject, rs.drop_last()) + "\n"@ + detail_rel_line(
            subject, rs.last())
    }
}

/// The single-character rendering: headings, description and the
/// relationship list, with placeholders for empty fields.
pub open spec fn character_details_text(c: CharacterV) -> Seq<char> {
    "CHARACTER: "@ + c.name + "\nROLE: "@ + or_placeholder(c.role, "Unknown role"@)
        + "\nNOVEL: "@ + or_placeholder(c.novel_id, "Unknown novel"@)
        + "\n\nDESCRIPTION:\n"@ + or_placeholder(
            c.description, "No description available"@) + "\n\nRELATIONSHIPS:\n"@
        + if c.relationships.len() == 0 {
            "No relationship information available"@
        } else {
            detail_rel_lines(c.name, c.relationships)
        }
}

/// Renders the detailed single-character report.
#[verifier::rlimit(100)]
pub fn format_character_details(c: &Character) -> (r: String)
    ensures
        r@ == character_details_text(c@),
{
    let mut out = String::new();
    out.append("CHARACTER: ");
    out.append(c.name.as_str());
    out.append("\nROLE: ");
    append_or_placeholder(&mut out, c.role.as_str(), "Unknown role");
    out.append("\nNOVEL: ");
    append_or_placeholder(&mut out, c.novel_id.as_str(), "Unknown novel");
    out.append("\n\nDESCRIPTION:\n");
    append_or_placeholder(&mut out, c.description.as_str(), "No description available");
    out.append("\n\nRELATIONSHIPS:\n");
    if c.relationships.len() == 0 {
        out.append("No relationship information available");
    } else {
        let ghost mid = out@;
        let ghost rs = c.relationships.deep_view();
        proof {
            assert(rs.subrange(0, 1) =~= seq![rs[0]]);
            assert(rs[0] == c.relationships@[0].deep_view());
        }
        let e = &c.relationships[0];
        out.append("- ");
        out.append(c.name.as_str());
        out.append(" is ");
        append_or_placeholder(&mut out, e.relationship_type.as_str(), "connected to");
        out.append(" ");
        append_or_placeholder(&mut out, e.character_name.as_str(), "Unknown");
        proof {
            assert(out@ =~= mid + detail_rel_lines(c@.name, rs.subrange(0, 1)));
        }
        let mut k: usize = 1;
        while k < c.relationships.len()
            invariant
                1 <= k <= c.relationships@.len(),
                rs == c.relationships.deep_view(),
                out@ == mid + detail_rel_lines(c@.name, rs.subrange(0, k as int)),
            decreases c.relationships@.len() - k,
        {
            let e = &c.relationships[k];
            out.append("\n");
            out.append("- ");
            out.append(c.name.as_str());
            out.append(" is ");
            append_or_placeholder(&mut out, e.relationship_type.as_str(), "connected to");
            out.append(" ");
            append_or_placeholder(&mut out, e.character_name.as_str(), "Unknown");
            proof {
                assert(rs.subrange(0, k + 1 as int).drop_last()
                    =~= rs.subrange(0, k as int));
                assert(rs.subrange(0, k + 1 as int).last() == rs[k as int]);
                assert(rs[k as int] == c.relationships@[k as int].deep_view());
                assert(out@ =~= mid + detail_rel_lines(c@.name,
                    rs.subrange(0, k + 1 as int)));
            }
            k = k + 1;
        }
        proof {
            assert(rs.subrange(0, rs.len() as int) =~= rs);
        }
    }
    proof {
        assert(out@ =~= character_details_text(c@));
    }
    out
}

} // verus!
