//! A small JSON renderer for the domain records.
//!
//! The search layer reports a token-count estimate computed from the
//! byte length of the serialized result records; this module defines
//! that serialization.  Strings are escaped as JSON demands; optional
//! identifiers and metadata are omitted when absent, other optional
//! fields render as `null`.

use vstd::prelude::*;

use crate::models::Chapter;
use crate::models::Character;
use crate::models::Novel;
use crate::models::NovelMetadata;
use crate::models::QA;
use crate::models::Relationship;
use crate::text::chars_vec;
use crate::text::dec_digits;
use crate::text::push_all;
use crate::text::digit_char;
use crate::text::string_from_chars;
use crate::text::u64_to_string;

verus! {

/// The hexadecimal digit character for a value below sixteen.
pub open spec fn hex_digit_char(d: int) -> char {
    if d < 10 {
        digit_char(d)
    } else {
        ((('a' as u32) + (d - 10) as u32) as u8) as char
    }
}

/// The escape of one character inside a JSON string.
pub open spec fn esc_char(c: char) -> Seq<char> {
    if c == '"' {
        seq!['\\', '"']
    } else if c == '\\' {
        seq!['\\', '\\']
    } else if c == '\n' {
        seq!['\\', 'n']
    } else if c == '\r' {
        seq!['\\', 'r']
    } else if c == '\t' {
        seq!['\\', 't']
    } else if c == '\u{8}' {
        seq!['\\', 'b']
    } else if c == '\u{c}' {
        seq!['\\', 'f']
    } else if (c as u32) < 32 {
        seq!['\\', 'u', '0', '0', hex_digit_char((c as u32 / 16) as int),
            hex_digit_char((c as u32 % 16) as int)]
    } else {
        seq![c]
    }
}

/// The escaped body of a JSON string.
pub open spec fn json_escape(s: Seq<char>) -> Seq<char>
    decreases s.len(),
{
    if s.len() == 0 {
        seq![]
    } else {
        json_escape(s.drop_last()) + esc_char(s.last())
    }
}

/// A JSON string literal with its quotes.
pub open spec fn json_str(s: Seq<char>) -> Seq<char> {
    seq!['"'] + json_escape(s) + seq!['"']
}

/// The comma-joined items of a JSON array of strings.
pub open spec fn json_str_items(v: Seq<Seq<char>>) -> Seq<char>
    decreases v.len(),
{
    if v.len() == 0 {
        seq![]
    } else if v.len() == 1 {
        json_str(v[0])
    } else {
        json_str_items(v.drop_last()) + ","@ + json_str(v.last())
    }
}

/// A JSON array of strings.
pub open spec fn json_str_array(v: Seq<Seq<char>>) -> Seq<char> {
    "["@ + json_str_items(v) + "]"@
}

/// An optional string: a JSON string or `null`.
pub open spec fn json_opt_str(o: Option<String>) -> Seq<char> {
    match o {
        Some(s) => json_str(s@),
        None => "null"@,
    }
}

/// An optional number: decimal digits or `null`.
pub open spec fn json_opt_num(o: Option<u32>) -> Seq<char> {
    match o {
        Some(n) => dec_digits(n as nat),
        None => "null"@,
    }
}

/// The leading identifier member, omitted when the record has none.
pub open spec fn json_id_part(id: Option<String>) -> Seq<char> {
    match id {
        Some(s) => "\"_id\":"@ + json_str(s@) + ","@,
        None => Seq::<char>::empty(),
    }
}

/// Extended novel metadata as a JSON object.
pub open spec fn json_of_metadata(m: NovelMetadata) -> Seq<char> {
    "{\"publication_date\":"@ + json_opt_str(m.publication_date)
        + ",\"genre\":"@ + json_str_array(m.genre.deep_view())
        + ",\"word_count\":"@ + json_opt_num(m.word_count)
        + ",\"language\":"@ + json_opt_str(m.language) + "}"@
}

/// A novel as a JSON object.
pub open spec fn json_of_novel(n: Novel) -> Seq<char> {
    let meta = match n.metadata {
        Some(m) => ",\"metadata\":"@ + json_of_metadata(m),
        None => Seq::<char>::empty(),
    };
    "{"@ + json_id_part(n.id) + "\"title\":"@ + json_str(n.title@)
        + ",\"author\":"@ + json_str(n.author@)
        + ",\"summary\":"@ + json_str(n.summary@)
        + ",\"tags\":"@ + json_str_array(n.tags.deep_view()) + meta + "}"@
}

/// A chapter as a JSON object; the long-form text is omitted when
/// absent.
pub open spec fn json_of_chapter(c: Chapter) -> Seq<char> {
    let content = match c.content {
        Some(t) => ",\"content\":"@ + json_str(t@),
        None => Seq::<char>::empty(),
    };
    "{"@ + json_id_part(c.id) + "\"novel_id\":"@ + json_str(c.novel_id@)
        + ",\"number\":"@ + dec_digits(c.number as nat)
        + ",\"title\":"@ + json_str(c.title@)
        + ",\"summary\":"@ + json_str(c.summary@)
        + ",\"key_points\":"@ + json_str_array(c.key_points.deep_view()) + content + "}"@
}

/// A relationship edge as a JSON object.
pub open spec fn json_of_relationship(r: Relationship) -> Seq<char> {
    "{\"character_id\":"@ + json_opt_str(r.character_id)
        + ",\"character_name\":"@ + json_str(r.character_name@)
        + ",\"relationship_type\":"@ + json_str(r.relationship_type@) + "}"@
}

/// The comma-joined items of a relationship array.
pub open spec fn json_relationship_items(v: Seq<Relationship>) -> Seq<char>
    decreases v.len(),
{
    if v.len() == 0 {
        seq![]
    } else if v.len() == 1 {
        json_of_relationship(v[0])
    } else {
        json_relationship_items(v.drop_last()) + ","@ + json_of_relationship(v.last())
    }
}

/// A character as a JSON object.
pub open spec fn json_of_character(c: Character) -> Seq<char> {
    "{"@ + json_id_part(c.id) + "\"novel_id\":"@ + json_str(c.novel_id@)
        + ",\"name\":"@ + json_str(c.name@)
        + ",\"role\":"@ + json_str(c.role@)
        + ",\"description\":"@ + json_str(c.description@)
        + ",\"key_traits\":"@ + json_str_array(c.key_traits.deep_view())
        + ",\"relationships\":["@ + json_relationship_items(c.relationships@) + "]}"@
}

/// A question/answer entry as a JSON object.
pub open spec fn json_of_qa(q: QA) -> Seq<char> {
    "{"@ + json_id_part(q.id) + "\"novel_id\":"@ + json_opt_str(q.novel_id)
        + ",\"question\":"@ + json_str(q.question@)
        + ",\"answer\":"@ + json_str(q.answer@)
        + ",\"tags\":"@ + json_str_array(q.tags.deep_view()) + "}"@
}

/// The comma-joined items of a novel array.
pub open spec fn json_novel_items(v: Seq<Novel>) -> Seq<char>
    decreases v.len(),
{
    if v.len() == 0 {
        seq![]
    } else if v.len() == 1 {
        json_of_novel(v[0])
    } else {
        json_novel_items(v.drop_last()) + ","@ + json_of_novel(v.last())
    }
}

/// A JSON array of novels.
pub open spec fn json_of_novels(v: Seq<Novel>) -> Seq<char> {
    "["@ + json_novel_items(v) + "]"@
}

/// The comma-joined items of a chapter array.
pub open spec fn json_chapter_items(v: Seq<Chapter>) -> Seq<char>
    decreases v.len(),
{
    if v.len() == 0 {
        seq![]
    } else if v.len() == 1 {
        json_of_chapter(v[0])
    } else {
        json_chapter_items(v.drop_last()) + ","@ + json_of_chapter(v.last())
    }
}

/// A JSON array of chapters.
pub open spec fn json_of_chapters(v: Seq<Chapter>) -> Seq<char> {
    "["@ + json_chapter_items(v) + "]"@
}

/// The comma-joined items of a character array.
pub open spec fn json_character_items(v: Seq<Character>) -> Seq<char>
    decreases v.len(),
{
    if v.len() == 0 {
        seq![]
    } else if v.len() == 1 {
        json_of_character(v[0])
    } else {
        json_character_items(v.drop_last()) + ","@ + json_of_character(v.last())
    }
}

/// A JSON array of characters.
pub open spec fn json_of_characters(v: Seq<Character>) -> Seq<char> {
    "["@ + json_character_items(v) + "]"@
}

/// The comma-joined items of a question/answer array.
pub open spec fn json_qa_items(v: Seq<QA>) -> Seq<char>
    decreases v.len(),
{
    if v.len() == 0 {
        seq![]
    } else if v.len() == 1 {
        json_of_qa(v[0])
    } else {
        json_qa_items(v.drop_last()) + ","@ + json_of_qa(v.last())
    }
}

/// A JSON array of question/answer entries.
pub open spec fn json_of_qa_entries(v: Seq<QA>) -> Seq<char> {
    "["@ + json_qa_items(v) + "]"@
}

/// The escape of one character, as a vector.
fn esc_char_exec(c: char) -> (r: Vec<char>)
    ensures
        r@ == esc_char(c),
{
    let mut r: Vec<char> = Vec::new();
    if c == '"' {
        r.push('\\');
        r.push('"');
        assert(r@ =~= esc_char(c));
    } else if c == '\\' {
        r.push('\\');
        r.push('\\');
        assert(r@ =~= esc_char(c));
    } else if c == '\n' {
        r.push('\\');
        r.push('n');
        assert(r@ =~= esc_char(c));
    } else if c == '\r' {
        r.push('\\');
        r.push('r');
        assert(r@ =~= esc_char(c));
    } else if c == '\t' {
        r.push('\\');
        r.push('t');
        assert(r@ =~= esc_char(c));
    } else if (c as u32) == 8 {
        r.push('\\');
        r.push('b');
        assert(r@ =~= esc_char(c));
    } else if (c as u32) == 12 {
        r.push('\\');
        r.push('f');
        assert(r@ =~= esc_char(c));
    } else if (c as u32) < 32 {
        r.push('\\');
        r.push('u');
        r.push('0');
        r.push('0');
        let hi: u32 = (c as u32) / 16;
        let lo: u32 = (c as u32) % 16;
        let hc = if hi < 10 {
            ((('0' as u32) + hi) as u8) as char
        } else {
            ((('a' as u32) + (hi - 10)) as u8) as char
        };
        let lc = if lo < 10 {
            ((('0' as u32) + lo) as u8) as char
        } else {
            ((('a' as u32) + (lo - 10)) as u8) as char
        };
        r.push(hc);
        r.push(lc);
        assert(hc == hex_digit_char(hi as int));
        assert(lc == hex_digit_char(lo as int));
        assert(r@ =~= esc_char(c));
    } else {
        r.push(c);
        assert(r@ =~= esc_char(c));
    }
    r
}

/// Escapes the characters of a string body.
fn escaped_chars(s: &Vec<char>) -> (r: Vec<char>)
    ensures
        r@ == json_escape(s@),
{
    proof {
        assert(s@.subrange(0, 0) =~= Seq::<char>::empty());
    }
    let mut r: Vec<char> = Vec::new();
    let mut i: usize = 0;
    while i < s.len()
        invariant
            i <= s@.len(),
            r@ == json_escape(s@.subrange(0, i as int)),
        decreases s@.len() - i,
    {
        let c = s[i];
        let ghost prefix = s@.subrange(0, i as int);
        let e = esc_char_exec(c);
        push_all(&mut r, &e);
        proof {
            assert(s@.subrange(0, i + 1 as int).drop_last() =~= prefix);
            assert(s@.subrange(0, i + 1 as int).last() == c);
        }
        i = i + 1;
    }
    proof {
        assert(s@.subrange(0, s@.len() as int) =~= s@);
    }
    r
}

/// Appends a quoted, escaped JSON string.
fn append_json_str(out: &mut String, s: &str)
    ensures
        final(out)@ == old(out)@ + json_str(s@),
{
    let ghost start = out@;
    out.append("\"");
    let chars = chars_vec(s);
    let esc = escaped_chars(&chars);
    let body = string_from_chars(&esc);
    out.append(body.as_str());
    out.append("\"");
    proof {
        assert(seq!['"'] =~= "\""@) by {
            reveal_strlit("\"");
        }
        assert(out@ =~= start + json_str(s@));
    }
}

/// Appends an optional string as JSON: quoted or `null`.
fn append_json_opt_str(out: &mut String, s: &Option<String>)
    ensures
        final(out)@ == old(out)@ + json_opt_str(*s),
{
    match s {
        Some(t) => append_json_str(out, t.as_str()),
        None => out.append("null"),
    }
}

/// Appends a JSON array of strings.
fn append_json_str_array(out: &mut String, v: &Vec<String>)
    ensures
        final(out)@ == old(out)@ + json_str_array(v.deep_view()),
{
    let ghost start = out@;
    out.append("[");
    let mut i: usize = 0;
    while i < v.len()
        invariant
            i <= v@.len(),
            out@ == start + "["@ + json_str_items(v.deep_view().subrange(0, i as int)),
        decreases v@.len() - i,
    {
        if i > 0 {
            out.append(",");
        }
        append_json_str(out, v[i].as_str());
        proof {
            let dv = v.deep_view();
            assert(dv.subrange(0, i + 1 as int).drop_last() =~= dv.subrange(0, i as int));
            assert(dv.subrange(0, i + 1 as int).last() == dv[i as int]);
            assert(dv[i as int] == v@[i as int]@);
            if i == 0 {
                assert(out@ =~= start + "["@ + json_str_items(dv.subrange(0, 1)));
            } else {
                assert(out@ =~= start + "["@ + json_str_items(dv.subrange(0, i + 1 as int)));
            }
        }
        i = i + 1;
    }
    out.append("]");
    proof {
        let dv = v.deep_view();
        assert(dv.subrange(0, dv.len() as int) =~= dv);
        assert(out@ =~= start + json_str_array(dv));
    }
}

/// Appends a decimal number.
fn append_num(out: &mut String, n: u64)
    ensures
        final(out)@ == old(out)@ + dec_digits(n as nat),
{
    let digits = u64_to_string(n);
    out.append(digits.as_str());
}

/// Appends an optional number: digits or `null`.
fn append_json_opt_num(out: &mut String, n: &Option<u32>)
    ensures
        final(out)@ == old(out)@ + json_opt_num(*n),
{
    match n {
        Some(k) => append_num(out, *k as u64),
        None => out.append("null"),
    }
}

/// Appends the identifier member when present.
fn append_id_part(out: &mut String, id: &Option<String>)
    ensures
        final(out)@ == old(out)@ + json_id_part(*id),
{
    let ghost start = out@;
    match id {
        Some(s) => {
            out.append("\"_id\":");
            append_json_str(out, s.as_str());
            out.append(",");
            proof {
                assert(out@ =~= start + json_id_part(*id));
            }
        },
        None => {},
    }
}

/// Renders one novel as a JSON object.
#[verifier::rlimit(100)]
fn novel_json(n: &Novel) -> (r: String)
    ensures
        r@ == json_of_novel(*n),
{
    let mut out = String::new();
    out.append("{");
    append_id_part(&mut out, &n.id);
    out.append("\"title\":");
    append_json_str(&mut out, n.title.as_str());
    out.append(",\"author\":");
    append_json_str(&mut out, n.author.as_str());
    out.append(",\"summary\":");
    append_json_str(&mut out, n.summary.as_str());
    out.append(",\"tags\":");
    append_json_str_array(&mut out, &n.tags);
    match &n.metadata {
        Some(m) => {
            out.append(",\"metadata\":");
            out.append("{\"publication_date\":");
            append_json_opt_str(&mut out, &m.publication_date);
            out.append(",\"genre\":");
            append_json_str_array(&mut out, &m.genre);
            out.append(",\"word_count\":");
            append_json_opt_num(&mut out, &m.word_count);
            out.append(",\"language\":");
            append_json_opt_str(&mut out, &m.language);
            out.append("}");
        },
        None => {},
    }
    out.append("}");
    proof {
        assert(out@ =~= json_of_novel(*n));
    }
    out
}

/// Renders one chapter as a JSON object.
#[verifier::rlimit(100)]
fn chapter_json(c: &Chapter) -> (r: String)
    ensures
        r@ == json_of_chapter(*c),
{
    let mut out = String::new();
    out.append("{");
    append_id_part(&mut out, &c.id);
    out.append("\"novel_id\":");
    append_json_str(&mut out, c.novel_id.as_str());
    out.append(",\"number\":");
    append_num(&mut out, c.number as u64);
    out.append(",\"title\":");
    append_json_str(&mut out, c.title.as_str());
    out.append(",\"summary\":");
    append_json_str(&mut out, c.summary.as_str());
    out.append(",\"key_points\":");
    append_json_str_array(&mut out, &c.key_points);
    match &c.content {
        Some(t) => {
            out.append(",\"content\":");
            append_json_str(&mut out, t.as_str());
        },
        None => {},
    }
    out.append("}");
    proof {
        assert(out@ =~= json_of_chapter(*c));
    }
    out
}

/// Renders one relationship edge as a JSON object.
#[verifier::rlimit(100)]
fn relationship_json(e: &Relationship) -> (r: String)
    ensures
        r@ == json_of_relationship(*e),
{
    let mut out = String::new();
    out.append("{\"character_id\":");
    append_json_opt_str(&mut out, &e.character_id);
    out.append(",\"character_name\":");
    append_json_str(&mut out, e.character_name.as_str());
    out.append(",\"relationship_type\":");
    append_json_str(&mut out, e.relationship_type.as_str());
    out.append("}");
    proof {
        assert(out@ =~= json_of_relationship(*e));
    }
    out
}

/// Renders one character record as a JSON object.
#[verifier::rlimit(100)]
fn character_json(c: &Character) -> (r: String)
    ensures
        r@ == json_of_character(*c),
{
    let mut out = String::new();
    out.append("{");
    append_id_part(&mut out, &c.id);
    out.append("\"novel_id\":");
    append_json_str(&mut out, c.novel_id.as_str());
    out.append(",\"name\":");
    append_json_str(&mut out, c.name.as_str());
    out.append(",\"role\":");
    append_json_str(&mut out, c.role.as_str());
    out.append(",\"description\":");
    append_json_str(&mut out, c.description.as_str());
    out.append(",\"key_traits\":");
    append_json_str_array(&mut out, &c.key_traits);
    out.append(",\"relationships\":[");
    let ghost mid = out@;
    let mut i: usize = 0;
    while i < c.relationships.len()
        invariant
            i <= c.relationships@.len(),
            out@ == mid + json_relationship_items(c.relationships@.subrange(0, i as int)),
        decreases c.relationships@.len() - i,
    {
        if i > 0 {
            out.append(",");
        }
        let piece = relationship_json(&c.relationships[i]);
        out.append(piece.as_str());
        proof {
            let rels = c.relationships@;
            assert(rels.subrange(0, i + 1 as int).drop_last() =~= rels.subrange(0, i as int));
            assert(rels.subrange(0, i + 1 as int).last() == rels[i as int]);
            assert(out@ =~= mid + json_relationship_items(rels.subrange(0, i + 1 as int)));
        }
        i = i + 1;
    }
    out.append("]}");
    proof {
        assert(c.relationships@.subrange(0, c.relationships@.len() as int)
            =~= c.relationships@);
        assert(out@ =~= json_of_character(*c));
    }
    out
}

/// Renders one question/answer entry as a JSON object.
#[verifier::rlimit(100)]
fn qa_json(q: &QA) -> (r: String)
    ensures
        r@ == json_of_qa(*q),
{
    let mut out = String::new();
    out.append("{");
    append_id_part(&mut out, &q.id);
    out.append("\"novel_id\":");
    append_json_opt_str(&mut out, &q.novel_id);
    out.append(",\"question\":");
    append_json_str(&mut out, q.question.as_str());
    out.append(",\"answer\":");
    append_json_str(&mut out, q.answer.as_str());
    out.append(",\"tags\":");
    append_json_str_array(&mut out, &q.tags);
    out.append("}");
    proof {
        assert(out@ =~= json_of_qa(*q));
    }
    out
}

/// Renders a list of novels as JSON.
pub fn novels_to_json(v: &Vec<Novel>) -> (r: String)
    ensures
        r@ == json_of_novels(v@),
{
    let mut out = String::new();
    out.append("[");
    let mut i: usize = 0;
    while i < v.len()
        invariant
            i <= v@.len(),
            out@ == "["@ + json_novel_items(v@.subrange(0, i as int)),
        decreases v@.len() - i,
    {
        if i > 0 {
            out.append(",");
        }
        let piece = novel_json(&v[i]);
        out.append(piece.as_str());
        proof {
            assert(v@.subrange(0, i + 1 as int).drop_last() =~= v@.subrange(0, i as int));
            assert(v@.subrange(0, i + 1 as int).last() == v@[i as int]);
            assert(out@ =~= "["@ + json_novel_items(v@.subrange(0, i + 1 as int)));
        }
        i = i + 1;
    }
    out.append("]");
    proof {
        assert(v@.subrange(0, v@.len() as int) =~= v@);
        assert(out@ =~= json_of_novels(v@));
    }
    out
}

/// Renders a list of chapters as JSON.
pub fn chapters_to_json(v: &Vec<Chapter>) -> (r: String)
    ensures
        r@ == json_of_chapters(v@),
{
    let mut out = String::new();
    out.append("[");
    let mut i: usize = 0;
    while i < v.len()
        invariant
            i <= v@.len(),
            out@ == "["@ + json_chapter_items(v@.subrange(0, i as int)),
        decreases v@.len() - i,
    {
        if i > 0 {
            out.append(",");
        }
        let piece = chapter_json(&v[i]);
        out.append(piece.as_str());
        proof {
            assert(v@.subrange(0, i + 1 as int).drop_last() =~= v@.subrange(0, i as int));
            assert(v@.subrange(0, i + 1 as int).last() == v@[i as int]);
            assert(out@ =~= "["@ + json_chapter_items(v@.subrange(0, i + 1 as int)));
        }
        i = i + 1;
    }
    out.append("]");
    proof {
        assert(v@.subrange(0, v@.len() as int) =~= v@);
        assert(out@ =~= json_of_chapters(v@));
    }
    out
}

/// Renders a list of characters as JSON.
pub fn characters_to_json(v: &Vec<Character>) -> (r: String)
    ensures
        r@ == json_of_characters(v@),
{
    let mut out = String::new();
    out.append("[");
    let mut i: usize = 0;
    while i < v.len()
        invariant
            i <= v@.len(),
            out@ == "["@ + json_character_items(v@.subrange(0, i as int)),
        decreases v@.len() - i,
    {
        if i > 0 {
            out.append(",");
        }
        let piece = character_json(&v[i]);
        out.append(piece.as_str());
        proof {
            assert(v@.subrange(0, i + 1 as int).drop_last() =~= v@.subrange(0, i as int));
            assert(v@.subrange(0, i + 1 as int).last() == v@[i as int]);
            assert(out@ =~= "["@ + json_character_items(v@.subrange(0, i + 1 as int)));
        }
        i = i + 1;
    }
    out.append("]");
    proof {
        assert(v@.subrange(0, v@.len() as int) =~= v@);
        assert(out@ =~= json_of_characters(v@));
    }
    out
}

/// Renders a list of question/answer entries as JSON.
pub fn qa_to_json(v: &Vec<QA>) -> (r: String)
    ensures
        r@ == json_of_qa_entries(v@),
{
    let mut out = String::new();
    out.append("[");
    let mut i: usize = 0;
    while i < v.len()
        invariant
            i <= v@.len(),
            out@ == "["@ + json_qa_items(v@.subrange(0, i as int)),
        decreases v@.len() - i,
    {
        if i > 0 {
            out.append(",");
        }
        let piece = qa_json(&v[i]);
        out.append(piece.as_str());
        proof {
            assert(v@.subrange(0, i + 1 as int).drop_last() =~= v@.subrange(0, i as int));
            assert(v@.subrange(0, i + 1 as int).last() == v@[i as int]);
            assert(out@ =~= "["@ + json_qa_items(v@.subrange(0, i + 1 as int)));
        }
        i = i + 1;
    }
    out.append("]");
    proof {
        assert(v@.subrange(0, v@.len() as int) =~= v@);
        assert(out@ =~= json_of_qa_entries(v@));
    }
    out
}

} // verus!
