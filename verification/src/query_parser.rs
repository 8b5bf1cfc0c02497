//! The heuristic natural-language query parser.
//!
//! `parse_natural_language_query` is total: every input yields a
//! `SearchParams`, falling back to the `novels` collection and the
//! `search` query type.  Matching is ASCII case-insensitive and
//! order-sensitive: the fixed keyword tables decide ties, not the
//! position of a keyword in the text.

use vstd::prelude::*;

use crate::models::SearchFilters;
use crate::models::SearchFiltersV;
use crate::models::SearchParams;
use crate::models::SearchParamsV;
use crate::text::chars_vec;
use crate::text::contains_lowered;
use crate::text::contains_seq;
use crate::text::copy_range;
use crate::text::dec_value;
use crate::text::is_alnum;
use crate::text::is_alnum_exec;
use crate::text::is_digit;
use crate::text::is_digit_exec;
use crate::text::is_space;
use crate::text::is_space_exec;
use crate::text::is_sub_at;
use crate::text::lower_chars;
use crate::text::lower_seq;
use crate::text::parse_u32_digits;
use crate::text::string_from_chars;
use crate::text::sub_at_exec;
use crate::text::trim_non_alnum;
use crate::text::trim_non_alnum_exec;
use crate::text::trim_spaces;
use crate::text::trim_spaces_exec;

verus! {

/// The natural-language query parser; all of its operations are
/// associated functions.
pub struct QueryParser;

/// Result of the ordered collection-keyword scan: the first table entry
/// whose keyword occurs in the lower-cased text decides the collection.
pub open spec fn collection_found(lower: Seq<char>) -> Option<Seq<char>> {
    if contains_seq(lower, "novel"@) {
        Some("novels"@)
    } else if contains_seq(lower, "chapter"@) {
        Some("chapters"@)
    } else if contains_seq(lower, "character"@) {
        Some("characters"@)
    } else if contains_seq(lower, "qa"@) {
        Some("qa"@)
    } else if contains_seq(lower, "question"@) {
        Some("qa"@)
    } else if contains_seq(lower, "answer"@) {
        Some("qa"@)
    } else {
        None
    }
}

/// The collection a query resolves to, with the `novels` fallback.
pub open spec fn collection_of(q: Seq<char>) -> Seq<char> {
    match collection_found(lower_seq(q)) {
        Some(c) => c,
        None => "novels"@,
    }
}

/// Result of the ordered query-type keyword scan.
pub open spec fn query_type_found(lower: Seq<char>) -> Option<Seq<char>> {
    if contains_seq(lower, "summary"@) {
        Some("summary"@)
    } else if contains_seq(lower, "overview"@) {
        Some("summary"@)
    } else if contains_seq(lower, "detail"@) {
        Some("details"@)
    } else if contains_seq(lower, "information"@) {
        Some("details"@)
    } else if contains_seq(lower, "search"@) {
        Some("search"@)
    } else if contains_seq(lower, "find"@) {
        Some("search"@)
    } else if contains_seq(lower, "list"@) {
        Some("list"@)
    } else if contains_seq(lower, "all"@) {
        Some("list"@)
    } else {
        None
    }
}

/// The query type a query resolves to, with the `search` fallback.
pub open spec fn query_type_of(q: Seq<char>) -> Seq<char> {
    match query_type_found(lower_seq(q)) {
        Some(t) => t,
        None => "search"@,
    }
}

/// Whitespace splitting, accumulating the current in-progress token.
pub open spec fn split_ws_rec(s: Seq<char>, cur: Seq<char>) -> Seq<Seq<char>>
    decreases s.len(),
{
    if s.len() == 0 {
        if cur.len() == 0 {
            seq![]
        } else {
            seq![cur]
        }
    } else if is_space(s[0]) {
        if cur.len() == 0 {
            split_ws_rec(s.drop_first(), seq![])
        } else {
            seq![cur] + split_ws_rec(s.drop_first(), seq![])
        }
    } else {
        split_ws_rec(s.drop_first(), cur.push(s[0]))
    }
}

/// The maximal whitespace-free tokens of `s`, in order.
pub open spec fn split_ws(s: Seq<char>) -> Seq<Seq<char>> {
    split_ws_rec(s, seq![])
}

/// The fixed stop-word set dropped from keyword lists.
pub open spec fn is_stop_word(w: Seq<char>) -> bool {
    ||| w == "the"@ ||| w == "a"@ ||| w == "an"@ ||| w == "in"@ ||| w == "on"@
    ||| w == "at"@ ||| w == "of"@ ||| w == "to"@ ||| w == "for"@ ||| w == "with"@
    ||| w == "about"@ ||| w == "by"@ ||| w == "is"@ ||| w == "are"@ ||| w == "was"@
    ||| w == "were"@ ||| w == "be"@ ||| w == "been"@ ||| w == "being"@
    ||| w == "have"@ ||| w == "has"@ ||| w == "had"@ ||| w == "do"@ ||| w == "does"@
    ||| w == "did"@ ||| w == "can"@ ||| w == "could"@ ||| w == "will"@
    ||| w == "would"@ ||| w == "should"@ ||| w == "shall"@ ||| w == "get"@
    ||| w == "find"@ ||| w == "show"@ ||| w == "tell"@ ||| w == "give"@
    ||| w == "search"@ ||| w == "query"@ ||| w == "look"@
}

/// Every character is ASCII alphanumeric.
pub open spec fn all_alnum(w: Seq<char>) -> bool {
    forall|i: int| 0 <= i < w.len() ==> is_alnum(#[trigger] w[i])
}

/// The keyword a raw token yields: lower-cased, then stripped of
/// leading and trailing non-alphanumeric characters.
pub open spec fn keyword_of(tok: Seq<char>) -> Seq<char> {
    trim_non_alnum(lower_seq(tok))
}

/// A cleaned token is kept as a keyword when it is at least three
/// characters long, purely alphanumeric, and not a stop word.
pub open spec fn keep_keyword(w: Seq<char>) -> bool {
    w.len() >= 3 && all_alnum(w) && !is_stop_word(w)
}

/// The keywords obtained from a token list, preserving order and
/// duplicates.
pub open spec fn keywords_of_tokens(toks: Seq<Seq<char>>) -> Seq<Seq<char>>
    decreases toks.len(),
{
    if toks.len() == 0 {
        seq![]
    } else {
        let w = keyword_of(toks[0]);
        let rest = keywords_of_tokens(toks.drop_first());
        if keep_keyword(w) {
            seq![w] + rest
        } else {
            rest
        }
    }
}

/// The keywords extracted from a query.
pub open spec fn keywords_of(q: Seq<char>) -> Seq<Seq<char>> {
    keywords_of_tokens(split_ws(q))
}

/// The complete structured specification a query parses to.
pub open spec fn parsed_params(q: Seq<char>) -> SearchParamsV {
    SearchParamsV {
        collection: collection_of(q),
        query_type: query_type_of(q),
        keywords: keywords_of(q),
        filters: Some(SearchFiltersV {
            novel_id: novel_id_of(q),
            character_name: character_name_of(q),
            tags: if tags_of(q).len() > 0 {
                Some(tags_of(q))
            } else {
                None
            },
        }),
        limit: limit_of(q),
    }
}

/// First position at or after `i` holding a non-space character, or the
/// end of the text.
pub open spec fn skip_spaces(s: Seq<char>, i: int) -> int
    decreases s.len() - i,
{
    if 0 <= i && i < s.len() && is_space(s[i]) {
        skip_spaces(s, i + 1)
    } else {
        i
    }
}

/// End of the alphanumeric run starting at `i`.
pub open spec fn alnum_run_end(s: Seq<char>, i: int) -> int
    decreases s.len() - i,
{
    if 0 <= i && i < s.len() && is_alnum(s[i]) {
        alnum_run_end(s, i + 1)
    } else {
        i
    }
}

/// End of the decimal-digit run starting at `i`.
pub open spec fn digit_run_end(s: Seq<char>, i: int) -> int
    decreases s.len() - i,
{
    if 0 <= i && i < s.len() && is_digit(s[i]) {
        digit_run_end(s, i + 1)
    } else {
        i
    }
}

/// ASCII letter.
pub open spec fn is_letter(c: char) -> bool {
    ('a' <= c && c <= 'z') || ('A' <= c && c <= 'Z')
}

/// Characters admitted in a captured character name: letters and
/// whitespace.
pub open spec fn is_name_char(c: char) -> bool {
    is_letter(c) || is_space(c)
}

/// End of the name-character run starting at `i`.
pub open spec fn name_run_end(s: Seq<char>, i: int) -> int
    decreases s.len() - i,
{
    if 0 <= i && i < s.len() && is_name_char(s[i]) {
        name_run_end(s, i + 1)
    } else {
        i
    }
}

/// Characters admitted in a captured tag list: letters, commas and
/// whitespace.
pub open spec fn is_tag_char(c: char) -> bool {
    is_letter(c) || c == ',' || is_space(c)
}

/// End of the tag-character run starting at `i`.
pub open spec fn tag_run_end(s: Seq<char>, i: int) -> int
    decreases s.len() - i,
{
    if 0 <= i && i < s.len() && is_tag_char(s[i]) {
        tag_run_end(s, i + 1)
    } else {
        i
    }
}

/// After optional whitespace, an optional `:`/`|`/`=` separator and
/// more optional whitespace, captures a non-empty alphanumeric run.
pub open spec fn tail_capture_alnum(s: Seq<char>, j: int) -> Option<Seq<char>> {
    let j3 = skip_spaces(s, j);
    let j4 = if j3 < s.len() && (s[j3] == ':' || s[j3] == '|' || s[j3] == '=') {
        j3 + 1
    } else {
        j3
    };
    let j5 = skip_spaces(s, j4);
    if j5 < s.len() && is_alnum(s[j5]) {
        Some(s.subrange(j5, alnum_run_end(s, j5)))
    } else {
        None
    }
}

/// The work-identifier pattern at position `i`: the literal `novel`,
/// whitespace, an optional `id`/`ID` marker, an optional separator,
/// then the captured identifier.  When the marker is present but no
/// capture follows it, the marker itself is read as the identifier.
pub open spec fn novel_id_match_at(s: Seq<char>, i: int) -> Option<Seq<char>> {
    if !is_sub_at(s, "novel"@, i) {
        None
    } else {
        let j0 = i + 5;
        if j0 < s.len() && is_space(s[j0]) {
            let j1 = skip_spaces(s, j0);
            let with_id = if is_sub_at(s, "id"@, j1) || is_sub_at(s, "ID"@, j1) {
                tail_capture_alnum(s, j1 + 2)
            } else {
                None
            };
            match with_id {
                Some(c) => Some(c),
                None => tail_capture_alnum(s, j1),
            }
        } else {
            None
        }
    }
}

/// Leftmost occurrence of the work-identifier pattern at or after `i`.
pub open spec fn scan_novel_id(s: Seq<char>, i: int) -> Option<Seq<char>>
    decreases s.len() - i,
{
    if i < 0 || i >= s.len() {
        None
    } else {
        match novel_id_match_at(s, i) {
            Some(c) => Some(c),
            None => scan_novel_id(s, i + 1),
        }
    }
}

/// The work identifier extracted from a query, if any.
pub open spec fn novel_id_of(q: Seq<char>) -> Option<Seq<char>> {
    scan_novel_id(q, 0)
}

/// After optional whitespace, an optional separator and more optional
/// whitespace, captures a non-empty run of letters and spaces.
pub open spec fn name_tail(s: Seq<char>, j: int) -> Option<Seq<char>> {
    let j3 = skip_spaces(s, j);
    let j4 = if j3 < s.len() && (s[j3] == ':' || s[j3] == '|' || s[j3] == '=') {
        j3 + 1
    } else {
        j3
    };
    let j5 = skip_spaces(s, j4);
    if j5 < s.len() && is_name_char(s[j5]) {
        Some(s.subrange(j5, name_run_end(s, j5)))
    } else {
        None
    }
}

/// The character-name pattern at position `i`: the literal `character`,
/// whitespace, an optional `named`/`called` marker, then the captured
/// name, trimmed of surrounding whitespace.
pub open spec fn character_name_match_at(s: Seq<char>, i: int) -> Option<Seq<char>> {
    if !is_sub_at(s, "character"@, i) {
        None
    } else {
        let j0 = i + 9;
        if j0 < s.len() && is_space(s[j0]) {
            let j1 = skip_spaces(s, j0);
            let with_kw = if is_sub_at(s, "named"@, j1) {
                name_tail(s, j1 + 5)
            } else if is_sub_at(s, "called"@, j1) {
                name_tail(s, j1 + 6)
            } else {
                None
            };
            match with_kw {
                Some(c) => Some(trim_spaces(c)),
                None => match name_tail(s, j1) {
                    Some(c) => Some(trim_spaces(c)),
                    None => None,
                },
            }
        } else {
            None
        }
    }
}

/// Leftmost occurrence of the character-name pattern at or after `i`.
pub open spec fn scan_character_name(s: Seq<char>, i: int) -> Option<Seq<char>>
    decreases s.len() - i,
{
    if i < 0 || i >= s.len() {
        None
    } else {
        match character_name_match_at(s, i) {
            Some(c) => Some(c),
            None => scan_character_name(s, i + 1),
        }
    }
}

/// The character-name filter extracted from a query, if any.
pub open spec fn character_name_of(q: Seq<char>) -> Option<Seq<char>> {
    scan_character_name(q, 0)
}

/// Like `name_tail`, over the tag character class.
pub open spec fn tag_tail(s: Seq<char>, j: int) -> Option<Seq<char>> {
    let j3 = skip_spaces(s, j);
    let j4 = if j3 < s.len() && (s[j3] == ':' || s[j3] == '|' || s[j3] == '=') {
        j3 + 1
    } else {
        j3
    };
    let j5 = skip_spaces(s, j4);
    if j5 < s.len() && is_tag_char(s[j5]) {
        Some(s.subrange(j5, tag_run_end(s, j5)))
    } else {
        None
    }
}

/// The tag-list pattern at position `i`: the literal `tag`, an optional
/// `s`, an optional separator, then the captured comma-separated list.
/// When the plural form leaves nothing to capture, the trailing `s`
/// itself is read as the capture.
pub open spec fn tags_match_at(s: Seq<char>, i: int) -> Option<Seq<char>> {
    if !is_sub_at(s, "tag"@, i) {
        None
    } else if is_sub_at(s, "tags"@, i) {
        match tag_tail(s, i + 4) {
            Some(c) => Some(c),
            None => tag_tail(s, i + 3),
        }
    } else {
        tag_tail(s, i + 3)
    }
}

/// Leftmost occurrence of the tag-list pattern at or after `i`.
pub open spec fn scan_tags(s: Seq<char>, i: int) -> Option<Seq<char>>
    decreases s.len() - i,
{
    if i < 0 || i >= s.len() {
        None
    } else {
        match tags_match_at(s, i) {
            Some(c) => Some(c),
            None => scan_tags(s, i + 1),
        }
    }
}

/// Splits a captured tag list at commas; pieces are trimmed and empty
/// pieces are dropped.
pub open spec fn split_tags_rec(s: Seq<char>, cur: Seq<char>) -> Seq<Seq<char>>
    decreases s.len(),
{
    if s.len() == 0 {
        let t = trim_spaces(cur);
        if t.len() == 0 {
            seq![]
        } else {
            seq![t]
        }
    } else if s[0] == ',' {
        let t = trim_spaces(cur);
        let rest = split_tags_rec(s.drop_first(), seq![]);
        if t.len() == 0 {
            rest
        } else {
            seq![t] + rest
        }
    } else {
        split_tags_rec(s.drop_first(), cur.push(s[0]))
    }
}

/// The tag filters extracted from a query; empty when the pattern does
/// not occur or captures nothing but separators.
pub open spec fn tags_of(q: Seq<char>) -> Seq<Seq<char>> {
    match scan_tags(q, 0) {
        Some(c) => split_tags_rec(c, seq![]),
        None => seq![],
    }
}

/// The limit pattern at position `i`: the literal `limit`, an optional
/// separator, then a captured digit run.
pub open spec fn limit_match_at(s: Seq<char>, i: int) -> Option<Seq<char>> {
    if !is_sub_at(s, "limit"@, i) {
        None
    } else {
        let j = i + 5;
        let j3 = skip_spaces(s, j);
        let j4 = if j3 < s.len() && (s[j3] == ':' || s[j3] == '|' || s[j3] == '=') {
            j3 + 1
        } else {
            j3
        };
        let j5 = skip_spaces(s, j4);
        if j5 < s.len() && is_digit(s[j5]) {
            Some(s.subrange(j5, digit_run_end(s, j5)))
        } else {
            None
        }
    }
}

/// Leftmost occurrence of the limit pattern at or after `i`.
pub open spec fn scan_limit(s: Seq<char>, i: int) -> Option<Seq<char>>
    decreases s.len() - i,
{
    if i < 0 || i >= s.len() {
        None
    } else {
        match limit_match_at(s, i) {
            Some(c) => Some(c),
            None => scan_limit(s, i + 1),
        }
    }
}

/// The explicit result limit of a query: the value of the captured
/// digits, absent when no limit is written or the value does not fit.
pub open spec fn limit_of(q: Seq<char>) -> Option<u32> {
    match scan_limit(q, 0) {
        Some(d) => if dec_value(d) <= u32::MAX {
            Some(dec_value(d) as u32)
        } else {
            None
        },
        None => None,
    }
}

/// Splits a character vector into its whitespace-separated tokens.
pub fn split_tokens(v: &Vec<char>) -> (r: Vec<Vec<char>>)
    ensures
        r.deep_view() == split_ws(v@),
{
    proof {
        assert(v@.subrange(0, v@.len() as int) =~= v@);
    }
    let mut out: Vec<Vec<char>> = Vec::new();
    let mut cur: Vec<char> = Vec::new();
    let mut i: usize = 0;
    while i < v.len()
        invariant
            i <= v@.len(),
            split_ws(v@) == out.deep_view() + split_ws_rec(
                v@.subrange(i as int, v@.len() as int), cur@),
        decreases v@.len() - i,
    {
        let ghost rest = v@.subrange(i as int, v@.len() as int);
        proof {
            assert(rest[0] == v@[i as int]);
            assert(rest.drop_first() =~= v@.subrange(i + 1 as int, v@.len() as int));
        }
        let c = v[i];
        if is_space_exec(c) {
            if cur.len() > 0 {
                let ghost old_out = out.deep_view();
                let ghost done = cur@;
                out.push(cur);
                cur = Vec::new();
                proof {
                    assert(out.deep_view() =~~= old_out.push(done));
                    assert(old_out + (seq![done] + split_ws_rec(rest.drop_first(), seq![]))
                        =~~= old_out.push(done) + split_ws_rec(rest.drop_first(), seq![]));
                }
            } else {
                proof {
                    assert(cur@ =~= Seq::<char>::empty());
                    assert(split_ws_rec(rest, Seq::<char>::empty())
                        == split_ws_rec(rest.drop_first(), Seq::<char>::empty()));
                }
            }
        } else {
            cur.push(c);
        }
        proof {
            assert(split_ws(v@) == out.deep_view() + split_ws_rec(
                v@.subrange(i + 1 as int, v@.len() as int), cur@));
        }
        i = i + 1;
    }
    proof {
        assert(v@.subrange(v@.len() as int, v@.len() as int) =~= Seq::<char>::empty());
    }
    if cur.len() > 0 {
        let ghost old_out = out.deep_view();
        let ghost done = cur@;
        out.push(cur);
        proof {
            assert(out.deep_view() =~~= old_out.push(done));
            assert(old_out + seq![done] =~~= old_out.push(done));
        }
    } else {
        proof {
            assert(out.deep_view() + seq![] =~~= out.deep_view());
        }
    }
    out
}

/// Advances past ASCII whitespace.
fn skip_spaces_exec(v: &Vec<char>, i: usize) -> (r: usize)
    requires
        i <= v@.len(),
    ensures
        i <= r <= v@.len(),
        r as int == skip_spaces(v@, i as int),
    decreases v@.len() - i,
{
    let mut j: usize = i;
    while j < v.len() && is_space_exec(v[j])
        invariant
            i <= j <= v@.len(),
            skip_spaces(v@, i as int) == skip_spaces(v@, j as int),
        decreases v@.len() - j,
    {
        j = j + 1;
    }
    j
}

/// Advances past ASCII alphanumerics.
fn alnum_run_end_exec(v: &Vec<char>, i: usize) -> (r: usize)
    requires
        i <= v@.len(),
    ensures
        i <= r <= v@.len(),
        r as int == alnum_run_end(v@, i as int),
{
    let mut j: usize = i;
    while j < v.len() && is_alnum_exec(v[j])
        invariant
            i <= j <= v@.len(),
            alnum_run_end(v@, i as int) == alnum_run_end(v@, j as int),
        decreases v@.len() - j,
    {
        j = j + 1;
    }
    j
}

/// Advances past decimal digits.
fn digit_run_end_exec(v: &Vec<char>, i: usize) -> (r: usize)
    requires
        i <= v@.len(),
    ensures
        i <= r <= v@.len(),
        r as int == digit_run_end(v@, i as int),
        forall|k: int| i <= k < r ==> is_digit(#[trigger] v@[k]),
{
    let mut j: usize = i;
    while j < v.len() && is_digit_exec(v[j])
        invariant
            i <= j <= v@.len(),
            digit_run_end(v@, i as int) == digit_run_end(v@, j as int),
            forall|k: int| i <= k < j ==> is_digit(#[trigger] v@[k]),
        decreases v@.len() - j,
    {
        j = j + 1;
    }
    j
}

/// Tests for a name-class character (letter or whitespace).
fn is_name_char_exec(c: char) -> (r: bool)
    ensures
        r == is_name_char(c),
{
    ('a' <= c && c <= 'z') || ('A' <= c && c <= 'Z') || is_space_exec(c)
}

/// Advances past name-class characters.
fn name_run_end_exec(v: &Vec<char>, i: usize) -> (r: usize)
    requires
        i <= v@.len(),
    ensures
        i <= r <= v@.len(),
        r as int == name_run_end(v@, i as int),
{
    let mut j: usize = i;
    while j < v.len() && is_name_char_exec(v[j])
        invariant
            i <= j <= v@.len(),
            name_run_end(v@, i as int) == name_run_end(v@, j as int),
        decreases v@.len() - j,
    {
        j = j + 1;
    }
    j
}

/// Tests for a tag-class character (letter, comma or whitespace).
fn is_tag_char_exec(c: char) -> (r: bool)
    ensures
        r == is_tag_char(c),
{
    ('a' <= c && c <= 'z') || ('A' <= c && c <= 'Z') || c == ',' || is_space_exec(c)
}

/// Advances past tag-class characters.
fn tag_run_end_exec(v: &Vec<char>, i: usize) -> (r: usize)
    requires
        i <= v@.len(),
    ensures
        i <= r <= v@.len(),
        r as int == tag_run_end(v@, i as int),
{
    let mut j: usize = i;
    while j < v.len() && is_tag_char_exec(v[j])
        invariant
            i <= j <= v@.len(),
            tag_run_end(v@, i as int) == tag_run_end(v@, j as int),
        decreases v@.len() - j,
    {
        j = j + 1;
    }
    j
}

/// Attempts the alphanumeric tail capture at `j`.
fn tail_capture_alnum_exec(v: &Vec<char>, j: usize) -> (r: Option<Vec<char>>)
    requires
        j <= v@.len(),
    ensures
        match r {
            Some(c) => tail_capture_alnum(v@, j as int) == Some(c@),
            None => tail_capture_alnum(v@, j as int) is None,
        },
{
    let j3 = skip_spaces_exec(v, j);
    let j4 = if j3 < v.len() && (v[j3] == ':' || v[j3] == '|' || v[j3] == '=') {
        j3 + 1
    } else {
        j3
    };
    let j5 = skip_spaces_exec(v, j4);
    if j5 < v.len() && is_alnum_exec(v[j5]) {
        let e = alnum_run_end_exec(v, j5);
        Some(copy_range(v, j5, e))
    } else {
        None
    }
}

/// Attempts the name tail capture at `j`.
fn name_tail_exec(v: &Vec<char>, j: usize) -> (r: Option<Vec<char>>)
    requires
        j <= v@.len(),
    ensures
        match r {
            Some(c) => name_tail(v@, j as int) == Some(c@),
            None => name_tail(v@, j as int) is None,
        },
{
    let j3 = skip_spaces_exec(v, j);
    let j4 = if j3 < v.len() && (v[j3] == ':' || v[j3] == '|' || v[j3] == '=') {
        j3 + 1
    } else {
        j3
    };
    let j5 = skip_spaces_exec(v, j4);
    if j5 < v.len() && is_name_char_exec(v[j5]) {
        let e = name_run_end_exec(v, j5);
        Some(copy_range(v, j5, e))
    } else {
        None
    }
}

/// Attempts the tag tail capture at `j`.
fn tag_tail_exec(v: &Vec<char>, j: usize) -> (r: Option<Vec<char>>)
    requires
        j <= v@.len(),
    ensures
        match r {
            Some(c) => tag_tail(v@, j as int) == Some(c@),
            None => tag_tail(v@, j as int) is None,
        },
{
    let j3 = skip_spaces_exec(v, j);
    let j4 = if j3 < v.len() && (v[j3] == ':' || v[j3] == '|' || v[j3] == '=') {
        j3 + 1
    } else {
        j3
    };
    let j5 = skip_spaces_exec(v, j4);
    if j5 < v.len() && is_tag_char_exec(v[j5]) {
        let e = tag_run_end_exec(v, j5);
        Some(copy_range(v, j5, e))
    } else {
        None
    }
}

/// Attempts the work-identifier pattern at `i`.
fn novel_id_attempt(v: &Vec<char>, i: usize) -> (r: Option<Vec<char>>)
    requires
        i < v@.len(),
    ensures
        match r {
            Some(c) => novel_id_match_at(v@, i as int) == Some(c@),
            None => novel_id_match_at(v@, i as int) is None,
        },
{
    let total = v.len();
    assert(v@.len() <= usize::MAX);
    let kw = chars_vec("novel");
    proof {
        reveal_strlit("novel");
    }
    if !sub_at_exec(v, &kw, i) {
        return None;
    }
    let j0 = i + 5;
    if !(j0 < v.len()) {
        return None;
    }
    if !is_space_exec(v[j0]) {
        return None;
    }
    let j1 = skip_spaces_exec(v, j0);
    let id_lower = chars_vec("id");
    let id_upper = chars_vec("ID");
    proof {
        reveal_strlit("id");
        reveal_strlit("ID");
    }
    let has_id = sub_at_exec(v, &id_lower, j1) || sub_at_exec(v, &id_upper, j1);
    if has_id {
        match tail_capture_alnum_exec(v, j1 + 2) {
            Some(c) => {
                return Some(c);
            },
            None => {},
        }
    }
    tail_capture_alnum_exec(v, j1)
}

/// Attempts the character-name pattern at `i`.
fn character_name_attempt(v: &Vec<char>, i: usize) -> (r: Option<Vec<char>>)
    requires
        i < v@.len(),
    ensures
        match r {
            Some(c) => character_name_match_at(v@, i as int) == Some(c@),
            None => character_name_match_at(v@, i as int) is None,
        },
{
    let total = v.len();
    assert(v@.len() <= usize::MAX);
    let kw = chars_vec("character");
    proof {
        reveal_strlit("character");
    }
    if !sub_at_exec(v, &kw, i) {
        return None;
    }
    let j0 = i + 9;
    if !(j0 < v.len()) {
        return None;
    }
    if !is_space_exec(v[j0]) {
        return None;
    }
    let j1 = skip_spaces_exec(v, j0);
    let named = chars_vec("named");
    let called = chars_vec("called");
    proof {
        reveal_strlit("named");
        reveal_strlit("called");
    }
    if sub_at_exec(v, &named, j1) {
        match name_tail_exec(v, j1 + 5) {
            Some(c) => {
                return Some(trim_spaces_exec(&c));
            },
            None => {},
        }
    } else if sub_at_exec(v, &called, j1) {
        match name_tail_exec(v, j1 + 6) {
            Some(c) => {
                return Some(trim_spaces_exec(&c));
            },
            None => {},
        }
    }
    match name_tail_exec(v, j1) {
        Some(c) => Some(trim_spaces_exec(&c)),
        None => None,
    }
}

/// Attempts the tag-list pattern at `i`.
fn tags_attempt(v: &Vec<char>, i: usize) -> (r: Option<Vec<char>>)
    requires
        i < v@.len(),
    ensures
        match r {
            Some(c) => tags_match_at(v@, i as int) == Some(c@),
            None => tags_match_at(v@, i as int) is None,
        },
{
    let total = v.len();
    assert(v@.len() <= usize::MAX);
    let tag = chars_vec("tag");
    let tags = chars_vec("tags");
    proof {
        reveal_strlit("tag");
        reveal_strlit("tags");
    }
    if !sub_at_exec(v, &tag, i) {
        return None;
    }
    if sub_at_exec(v, &tags, i) {
        match tag_tail_exec(v, i + 4) {
            Some(c) => {
                return Some(c);
            },
            None => {},
        }
        tag_tail_exec(v, i + 3)
    } else {
        tag_tail_exec(v, i + 3)
    }
}

/// Attempts the limit pattern at `i`.
fn limit_attempt(v: &Vec<char>, i: usize) -> (r: Option<Vec<char>>)
    requires
        i < v@.len(),
    ensures
        match r {
            Some(c) => limit_match_at(v@, i as int) == Some(c@) && c@.len() > 0
                && forall|k: int| 0 <= k < c@.len() ==> is_digit(#[trigger] c@[k]),
            None => limit_match_at(v@, i as int) is None,
        },
{
    let total = v.len();
    assert(v@.len() <= usize::MAX);
    let kw = chars_vec("limit");
    proof {
        reveal_strlit("limit");
    }
    if !sub_at_exec(v, &kw, i) {
        return None;
    }
    let j = i + 5;
    let j3 = skip_spaces_exec(v, j);
    let j4 = if j3 < v.len() && (v[j3] == ':' || v[j3] == '|' || v[j3] == '=') {
        j3 + 1
    } else {
        j3
    };
    let j5 = skip_spaces_exec(v, j4);
    if j5 < v.len() && is_digit_exec(v[j5]) {
        proof {
            assert(digit_run_end(v@, j5 as int) == digit_run_end(v@, j5 + 1 as int));
            lemma_digit_run_lower_bound(v@, j5 + 1 as int);
        }
        let e = digit_run_end_exec(v, j5);
        let c = copy_range(v, j5, e);
        assert(forall|k: int| 0 <= k < c@.len() ==> is_digit(#[trigger] c@[k]));
        Some(c)
    } else {
        None
    }
}

/// A digit run never ends before its starting position.
proof fn lemma_digit_run_lower_bound(s: Seq<char>, i: int)
    ensures
        digit_run_end(s, i) >= i,
    decreases s.len() - i,
{
    if 0 <= i && i < s.len() && is_digit(s[i]) {
        lemma_digit_run_lower_bound(s, i + 1);
    }
}

/// Splits a captured tag list at commas into trimmed, non-empty tags.
fn split_tags_exec(v: &Vec<char>) -> (r: Vec<String>)
    ensures
        r.deep_view() == split_tags_rec(v@, seq![]),
{
    proof {
        assert(v@.subrange(0, v@.len() as int) =~= v@);
    }
    let mut out: Vec<String> = Vec::new();
    let mut cur: Vec<char> = Vec::new();
    let mut i: usize = 0;
    while i < v.len()
        invariant
            i <= v@.len(),
            split_tags_rec(v@, seq![]) == out.deep_view() + split_tags_rec(
                v@.subrange(i as int, v@.len() as int), cur@),
        decreases v@.len() - i,
    {
        let ghost rest = v@.subrange(i as int, v@.len() as int);
        proof {
            assert(rest[0] == v@[i as int]);
            assert(rest.drop_first() =~= v@.subrange(i + 1 as int, v@.len() as int));
        }
        let c = v[i];
        if c == ',' {
            let t = trim_spaces_exec(&cur);
            cur = Vec::new();
            if t.len() > 0 {
                let ghost old_out = out.deep_view();
                let ghost done = t@;
                let ts = string_from_chars(&t);
                out.push(ts);
                proof {
                    assert(out.deep_view() =~~= old_out.push(done));
                    assert(old_out + (seq![done] + split_tags_rec(rest.drop_first(), seq![]))
                        =~~= old_out.push(done) + split_tags_rec(rest.drop_first(), seq![]));
                }
            }
        } else {
            cur.push(c);
        }
        proof {
            assert(split_tags_rec(v@, seq![]) == out.deep_view() + split_tags_rec(
                v@.subrange(i + 1 as int, v@.len() as int), cur@));
        }
        i = i + 1;
    }
    proof {
        assert(v@.subrange(v@.len() as int, v@.len() as int) =~= Seq::<char>::empty());
    }
    let t = trim_spaces_exec(&cur);
    if t.len() > 0 {
        let ghost old_out = out.deep_view();
        let ghost done = t@;
        let ts = string_from_chars(&t);
        out.push(ts);
        proof {
            assert(out.deep_view() =~~= old_out.push(done));
            assert(old_out + seq![done] =~~= old_out.push(done));
        }
    } else {
        proof {
            assert(out.deep_view() + seq![] =~~= out.deep_view());
        }
    }
    out
}

/// Tests membership in the fixed stop-word set.
pub fn stop_word_exec(w: &Vec<char>) -> (r: bool)
    ensures
        r == is_stop_word(w@),
{
    let s = string_from_chars(w);
    let t = s.as_str();
    crate::text::str_eq(t, "the") || crate::text::str_eq(t, "a")
        || crate::text::str_eq(t, "an") || crate::text::str_eq(t, "in")
        || crate::text::str_eq(t, "on") || crate::text::str_eq(t, "at")
        || crate::text::str_eq(t, "of") || crate::text::str_eq(t, "to")
        || crate::text::str_eq(t, "for") || crate::text::str_eq(t, "with")
        || crate::text::str_eq(t, "about") || crate::text::str_eq(t, "by")
        || crate::text::str_eq(t, "is") || crate::text::str_eq(t, "are")
        || crate::text::str_eq(t, "was") || crate::text::str_eq(t, "were")
        || crate::text::str_eq(t, "be") || crate::text::str_eq(t, "been")
        || crate::text::str_eq(t, "being") || crate::text::str_eq(t, "have")
        || crate::text::str_eq(t, "has") || crate::text::str_eq(t, "had")
        || crate::text::str_eq(t, "do") || crate::text::str_eq(t, "does")
        || crate::text::str_eq(t, "did") || crate::text::str_eq(t, "can")
        || crate::text::str_eq(t, "could") || crate::text::str_eq(t, "will")
        || crate::text::str_eq(t, "would") || crate::text::str_eq(t, "should")
        || crate::text::str_eq(t, "shall") || crate::text::str_eq(t, "get")
        || crate::text::str_eq(t, "find") || crate::text::str_eq(t, "show")
        || crate::text::str_eq(t, "tell") || crate::text::str_eq(t, "give")
        || crate::text::str_eq(t, "search") || crate::text::str_eq(t, "query")
        || crate::text::str_eq(t, "look")
}

/// Tests whether every character of the token is ASCII alphanumeric.
pub fn all_alnum_exec(w: &Vec<char>) -> (r: bool)
    ensures
        r == all_alnum(w@),
{
    let mut i: usize = 0;
    while i < w.len()
        invariant
            i <= w@.len(),
            forall|k: int| 0 <= k < i ==> is_alnum(#[trigger] w@[k]),
        decreases w@.len() - i,
    {
        if !is_alnum_exec(w[i]) {
            return false;
        }
        i = i + 1;
    }
    true
}

impl QueryParser {
    /// Detects the target collection by the first matching entry of the
    /// fixed keyword table; `None` when no keyword occurs.
    pub fn extract_collection(query: &str) -> (r: Option<String>)
        ensures
            match r {
                Some(s) => collection_found(lower_seq(query@)) == Some(s@),
                None => collection_found(lower_seq(query@)) is None,
            },
    {
        let chars = chars_vec(query);
        if contains_lowered(&chars, "novel") {
            Some("novels".to_owned())
        } else if contains_lowered(&chars, "chapter") {
            Some("chapters".to_owned())
        } else if contains_lowered(&chars, "character") {
            Some("characters".to_owned())
        } else if contains_lowered(&chars, "qa") {
            Some("qa".to_owned())
        } else if contains_lowered(&chars, "question") {
            Some("qa".to_owned())
        } else if contains_lowered(&chars, "answer") {
            Some("qa".to_owned())
        } else {
            None
        }
    }

    /// Detects the query type by the first matching entry of the fixed
    /// keyword table; `None` when no keyword occurs.
    pub fn extract_query_type(query: &str) -> (r: Option<String>)
        ensures
            match r {
                Some(s) => query_type_found(lower_seq(query@)) == Some(s@),
                None => query_type_found(lower_seq(query@)) is None,
            },
    {
        let chars = chars_vec(query);
        if contains_lowered(&chars, "summary") {
            Some("summary".to_owned())
        } else if contains_lowered(&chars, "overview") {
            Some("summary".to_owned())
        } else if contains_lowered(&chars, "detail") {
            Some("details".to_owned())
        } else if contains_lowered(&chars, "information") {
            Some("details".to_owned())
        } else if contains_lowered(&chars, "search") {
            Some("search".to_owned())
        } else if contains_lowered(&chars, "find") {
            Some("search".to_owned())
        } else if contains_lowered(&chars, "list") {
            Some("list".to_owned())
        } else if contains_lowered(&chars, "all") {
            Some("list".to_owned())
        } else {
            None
        }
    }

    /// Extracts the search keywords of a query: whitespace tokens,
    /// lower-cased and trimmed, with stop words, short tokens and
    /// tokens still holding separator characters dropped.
    pub fn extract_keywords(query: &str) -> (r: Vec<String>)
        ensures
            r.deep_view() == keywords_of(query@),
    {
        let chars = chars_vec(query);
        let tokens = split_tokens(&chars);
        let ghost toks = tokens.deep_view();
        proof {
            assert(toks.subrange(0, toks.len() as int) =~= toks);
        }
        let mut out: Vec<String> = Vec::new();
        let mut i: usize = 0;
        while i < tokens.len()
            invariant
                i <= toks.len(),
                toks == tokens.deep_view(),
                toks.len() == tokens@.len(),
                keywords_of_tokens(toks) == out.deep_view() + keywords_of_tokens(
                    toks.subrange(i as int, toks.len() as int)),
            decreases toks.len() - i,
        {
            let ghost rest = toks.subrange(i as int, toks.len() as int);
            proof {
                assert(rest[0] == toks[i as int]);
                assert(toks[i as int] == tokens@[i as int]@);
                assert(rest.drop_first() =~= toks.subrange(i + 1 as int, toks.len() as int));
            }
            let lowered = lower_chars(&tokens[i]);
            let w = trim_non_alnum_exec(&lowered);
            assert(w@ == keyword_of(toks[i as int]));
            if w.len() >= 3 && all_alnum_exec(&w) && !stop_word_exec(&w) {
                let ghost old_out = out.deep_view();
                let kw = string_from_chars(&w);
                out.push(kw);
                proof {
                    assert(out.deep_view() =~= old_out.push(w@));
                    assert(old_out + (seq![w@] + keywords_of_tokens(rest.drop_first()))
                        =~= old_out.push(w@) + keywords_of_tokens(rest.drop_first()));
                }
            }
            i = i + 1;
        }
        proof {
            assert(toks.subrange(toks.len() as int, toks.len() as int)
                =~= Seq::<Seq<char>>::empty());
            assert(out.deep_view() + seq![] =~= out.deep_view());
        }
        out
    }

    /// Extracts the work-identifier filter, scanning left to right.
    pub fn extract_novel_id(query: &str) -> (r: Option<String>)
        ensures
            match r {
                Some(s) => novel_id_of(query@) == Some(s@),
                None => novel_id_of(query@) is None,
            },
    {
        let v = chars_vec(query);
        let mut i: usize = 0;
        while i < v.len()
            invariant
                i <= v@.len(),
                v@ == query@,
                scan_novel_id(v@, 0) == scan_novel_id(v@, i as int),
            decreases v@.len() - i,
        {
            match novel_id_attempt(&v, i) {
                Some(c) => {
                    return Some(string_from_chars(&c));
                },
                None => {},
            }
            i = i + 1;
        }
        None
    }

    /// Extracts the character-name filter, scanning left to right.
    pub fn extract_character_name(query: &str) -> (r: Option<String>)
        ensures
            match r {
                Some(s) => character_name_of(query@) == Some(s@),
                None => character_name_of(query@) is None,
            },
    {
        let v = chars_vec(query);
        let mut i: usize = 0;
        while i < v.len()
            invariant
                i <= v@.len(),
                v@ == query@,
                scan_character_name(v@, 0) == scan_character_name(v@, i as int),
            decreases v@.len() - i,
        {
            match character_name_attempt(&v, i) {
                Some(c) => {
                    return Some(string_from_chars(&c));
                },
                None => {},
            }
            i = i + 1;
        }
        None
    }

    /// Extracts the tag filters, scanning left to right.
    pub fn extract_tags(query: &str) -> (r: Vec<String>)
        ensures
            r.deep_view() == tags_of(query@),
    {
        let v = chars_vec(query);
        let mut i: usize = 0;
        while i < v.len()
            invariant
                i <= v@.len(),
                v@ == query@,
                scan_tags(v@, 0) == scan_tags(v@, i as int),
            decreases v@.len() - i,
        {
            match tags_attempt(&v, i) {
                Some(c) => {
                    return split_tags_exec(&c);
                },
                None => {},
            }
            i = i + 1;
        }
        proof {
            assert(Seq::<Seq<char>>::empty() =~~= tags_of(query@));
        }
        let r: Vec<String> = Vec::new();
        proof {
            assert(r.deep_view() =~~= Seq::<Seq<char>>::empty());
        }
        r
    }

    /// Extracts the explicit result limit, if any fits in a `u32`.
    pub fn extract_limit(query: &str) -> (r: Option<u32>)
        ensures
            r == limit_of(query@),
    {
        let v = chars_vec(query);
        let mut i: usize = 0;
        while i < v.len()
            invariant
                i <= v@.len(),
                v@ == query@,
                scan_limit(v@, 0) == scan_limit(v@, i as int),
            decreases v@.len() - i,
        {
            match limit_attempt(&v, i) {
                Some(c) => {
                    return parse_u32_digits(&c);
                },
                None => {},
            }
            i = i + 1;
        }
        None
    }

    /// Gathers the three optional structural filters of a query.
    pub fn extract_filters(query: &str) -> (r: SearchFilters)
        ensures
            match r.novel_id {
                Some(s) => novel_id_of(query@) == Some(s@),
                None => novel_id_of(query@) is None,
            },
            match r.character_name {
                Some(s) => character_name_of(query@) == Some(s@),
                None => character_name_of(query@) is None,
            },
            match r.tags {
                Some(ts) => ts.deep_view() == tags_of(query@) && ts@.len() > 0,
                None => tags_of(query@).len() == 0,
            },
    {
        let novel_id = Self::extract_novel_id(query);
        let character_name = Self::extract_character_name(query);
        let tags = Self::extract_tags(query);
        let tags_opt = if tags.len() > 0 {
            Some(tags)
        } else {
            None
        };
        SearchFilters { novel_id, character_name, tags: tags_opt }
    }

    /// Parses a free-text query into a structured search specification.
    /// Total: unrecognized inputs fall back to the `novels` collection,
    /// the `search` query type, and no keywords, filters or limit.
    pub fn parse_natural_language_query(query: &str) -> (r: SearchParams)
        ensures
            r.collection@ == collection_of(query@),
            r.query_type@ == query_type_of(query@),
            r.keywords.deep_view() == keywords_of(query@),
            r.filters is Some,
            match &r.filters {
                Some(f) => {
                    &&& match f.novel_id {
                        Some(s) => novel_id_of(query@) == Some(s@),
                        None => novel_id_of(query@) is None,
                    }
                    &&& match f.character_name {
                        Some(s) => character_name_of(query@) == Some(s@),
                        None => character_name_of(query@) is None,
                    }
                    &&& match f.tags {
                        Some(ts) => ts.deep_view() == tags_of(query@) && ts@.len() > 0,
                        None => tags_of(query@).len() == 0,
                    }
                },
                None => false,
            },
            r.limit == limit_of(query@),
            r@ == parsed_params(query@),
    {
        let collection = match Self::extract_collection(query) {
            Some(c) => c,
            None => "novels".to_owned(),
        };
        let query_type = match Self::extract_query_type(query) {
            Some(t) => t,
            None => "search".to_owned(),
        };
        let keywords = Self::extract_keywords(query);
        let filters = Self::extract_filters(query);
        let limit = Self::extract_limit(query);
        let r = SearchParams {
            collection,
            query_type,
            keywords,
            filters: Some(filters),
            limit,
        };
        proof {
            let pv = parsed_params(query@);
            let rv = r@;
            assert(rv.collection == pv.collection);
            assert(rv.query_type == pv.query_type);
            assert(rv.keywords == pv.keywords);
            assert(rv.limit == pv.limit);
            match &r.filters {
                Some(f) => {
                    match &f.novel_id {
                        Some(s) => {
                            assert(f@.novel_id == pv.filters.unwrap().novel_id);
                        },
                        None => {
                            assert(f@.novel_id == pv.filters.unwrap().novel_id);
                        },
                    }
                    match &f.character_name {
                        Some(s) => {
                            assert(f@.character_name == pv.filters.unwrap().character_name);
                        },
                        None => {
                            assert(f@.character_name == pv.filters.unwrap().character_name);
                        },
                    }
                    match &f.tags {
                        Some(ts) => {
                            assert(f@.tags == pv.filters.unwrap().tags);
                        },
                        None => {
                            assert(f@.tags == pv.filters.unwrap().tags);
                        },
                    }
                    assert(f@ == pv.filters.unwrap());
                },
                None => {
                    assert(false);
                },
            }
            assert(rv.filters == pv.filters);
            assert(rv == pv);
        }
        r
    }
}

/// First position at or after `i` that holds a colon, or the end.
pub open spec fn non_colon_end(s: Seq<char>, i: int) -> int
    decreases s.len() - i,
{
    if 0 <= i && i < s.len() && s[i] != ':' {
        non_colon_end(s, i + 1)
    } else {
        i
    }
}

/// Replaces the value of `k` in place, or appends the pair when the
/// key is new.
pub open spec fn upsert(ps: Seq<(Seq<char>, Seq<char>)>, k: Seq<char>, v: Seq<char>)
    -> Seq<(Seq<char>, Seq<char>)>
    decreases ps.len(),
{
    if ps.len() == 0 {
        seq![(k, v)]
    } else if ps[0].0 == k {
        seq![(k, v)] + ps.drop_first()
    } else {
        seq![ps[0]] + upsert(ps.drop_first(), k, v)
    }
}

/// Folds the colon-bearing tokens into a key-value list; later
/// occurrences of a key replace its value in place.
pub open spec fn pq_rec(toks: Seq<Seq<char>>, acc: Seq<(Seq<char>, Seq<char>)>)
    -> Seq<(Seq<char>, Seq<char>)>
    decreases toks.len(),
{
    if toks.len() == 0 {
        acc
    } else {
        let t = toks[0];
        let idx = non_colon_end(t, 0);
        let acc2 = if idx < t.len() {
            upsert(acc, t.subrange(0, idx), t.subrange(idx + 1, t.len() as int))
        } else {
            acc
        };
        pq_rec(toks.drop_first(), acc2)
    }
}

/// The key-value parameters of a query: `key:value` tokens, or the
/// whole trimmed text under `text` when no such token occurs.
pub open spec fn parse_query_pairs(q: Seq<char>) -> Seq<(Seq<char>, Seq<char>)> {
    let ps = pq_rec(split_ws(q), seq![]);
    if ps.len() == 0 && trim_spaces(q).len() > 0 {
        seq![("text"@, trim_spaces(q))]
    } else {
        ps
    }
}

/// The views of an owned key-value list.
pub open spec fn pairs_view(ps: Seq<(String, String)>) -> Seq<(Seq<char>, Seq<char>)> {
    ps.map_values(|p: (String, String)| (p.0@, p.1@))
}

/// In-place replacement: when the key sits at `j` and nowhere earlier,
/// upserting updates position `j`.
proof fn lemma_upsert_found(ps: Seq<(Seq<char>, Seq<char>)>, k: Seq<char>, v: Seq<char>,
    j: int)
    requires
        0 <= j < ps.len(),
        ps[j].0 == k,
        forall|i: int| 0 <= i < j ==> (#[trigger] ps[i]).0 != k,
    ensures
        upsert(ps, k, v) == ps.update(j, (k, v)),
    decreases ps.len(),
{
    if j == 0 {
        assert(seq![(k, v)] + ps.drop_first() =~= ps.update(0, (k, v)));
    } else {
        assert(ps[0].0 != k);
        let dl = ps.drop_first();
        assert(forall|i: int| 0 <= i < j - 1 ==> (#[trigger] dl[i]).0 != k);
        lemma_upsert_found(dl, k, v, j - 1);
        assert(seq![ps[0]] + dl.update(j - 1, (k, v)) =~= ps.update(j, (k, v)));
    }
}

/// Appending: when no entry bears the key, upserting pushes the pair.
proof fn lemma_upsert_absent(ps: Seq<(Seq<char>, Seq<char>)>, k: Seq<char>, v: Seq<char>)
    requires
        forall|i: int| 0 <= i < ps.len() ==> (#[trigger] ps[i]).0 != k,
    ensures
        upsert(ps, k, v) == ps.push((k, v)),
    decreases ps.len(),
{
    if ps.len() == 0 {
        assert(seq![(k, v)] =~= ps.push((k, v)));
    } else {
        let dl = ps.drop_first();
        lemma_upsert_absent(dl, k, v);
        assert(seq![ps[0]] + dl.push((k, v)) =~= ps.push((k, v)));
    }
}

/// Finds the first colon of a token.
fn colon_idx_exec(t: &Vec<char>) -> (r: usize)
    ensures
        r as int == non_colon_end(t@, 0),
        r <= t@.len(),
{
    let mut j: usize = 0;
    while j < t.len() && t[j] != ':'
        invariant
            j <= t@.len(),
            non_colon_end(t@, 0) == non_colon_end(t@, j as int),
        decreases t@.len() - j,
    {
        j = j + 1;
    }
    j
}

/// Applies one key-value pair, replacing in place or appending.
fn upsert_exec(params: &mut Vec<(String, String)>, k: String, v: String)
    ensures
        pairs_view(final(params)@) == upsert(pairs_view(old(params)@), k@, v@),
{
    let ghost pv = pairs_view(params@);
    let mut j: usize = 0;
    while j < params.len()
        invariant
            j <= params@.len(),
            pv == pairs_view(params@),
            pv == pairs_view(old(params)@),
            forall|i: int| 0 <= i < j ==> (#[trigger] pv[i]).0 != k@,
        decreases params@.len() - j,
    {
        proof {
            assert(pv[j as int] == (params@[j as int].0@, params@[j as int].1@));
        }
        if crate::text::str_eq(params[j].0.as_str(), k.as_str()) {
            let ghost kk = k@;
            let ghost vv = v@;
            let n = params.len();
            let mut rebuilt: Vec<(String, String)> = Vec::new();
            let mut t: usize = 0;
            while t < n
                invariant
                    t <= n,
                    j < n,
                    n == params@.len(),
                    pv == pairs_view(params@),
                    pv == pairs_view(old(params)@),
                    kk == k@,
                    vv == v@,
                    rebuilt@.len() == t,
                    t <= j ==> k@ == kk && v@ == vv,
                    forall|i: int| 0 <= i < t ==> #[trigger] pairs_view(rebuilt@)[i]
                        == (if i == j { (kk, vv) } else { pv[i] }),
                decreases n - t,
            {
                let ghost prev = rebuilt@;
                if t == j {
                    rebuilt.push((k.clone(), v.clone()));
                } else {
                    let e = &params[t];
                    rebuilt.push((e.0.clone(), e.1.clone()));
                }
                proof {
                    assert forall|i: int| 0 <= i < rebuilt@.len() implies
                        #[trigger] pairs_view(rebuilt@)[i]
                        == (if i == j { (kk, vv) } else { pv[i] }) by {
                        if i < t {
                            assert(rebuilt@[i] == prev[i]);
                            assert(pairs_view(prev)[i]
                                == (if i == j { (kk, vv) } else { pv[i] }));
                        } else {
                            assert(pv[i] == (params@[i].0@, params@[i].1@));
                        }
                    }
                }
                t = t + 1;
            }
            *params = rebuilt;
            proof {
                lemma_upsert_found(pv, kk, vv, j as int);
                assert(pairs_view(params@) =~= pv.update(j as int, (kk, vv)));
            }
            return;
        }
        j = j + 1;
    }
    let ghost kk = k@;
    let ghost vv = v@;
    let ghost prev = params@;
    params.push((k, v));
    proof {
        lemma_upsert_absent(pv, kk, vv);
        assert(pairs_view(params@) =~= pv.push((kk, vv)));
    }
}

/// Parses a query into key-value parameters: whitespace tokens of the
/// form `key:value` fill the list (later keys replace in place), and a
/// query with none becomes a single `text` entry holding the trimmed
/// query, when non-empty.
pub fn parse_query(query: &str) -> (r: Vec<(String, String)>)
    ensures
        pairs_view(r@) == parse_query_pairs(query@),
{
    let chars = chars_vec(query);
    let tokens = split_tokens(&chars);
    let ghost toks = tokens.deep_view();
    proof {
        assert(toks.subrange(0, toks.len() as int) =~= toks);
        assert(pairs_view(Seq::<(String, String)>::empty())
            =~= Seq::<(Seq<char>, Seq<char>)>::empty());
    }
    let mut params: Vec<(String, String)> = Vec::new();
    let mut i: usize = 0;
    while i < tokens.len()
        invariant
            i <= toks.len(),
            toks == tokens.deep_view(),
            toks.len() == tokens@.len(),
            pq_rec(toks, Seq::<(Seq<char>, Seq<char>)>::empty()) == pq_rec(
                toks.subrange(i as int, toks.len() as int), pairs_view(params@)),
        decreases toks.len() - i,
    {
        let ghost rest = toks.subrange(i as int, toks.len() as int);
        proof {
            assert(rest[0] == toks[i as int]);
            assert(toks[i as int] == tokens@[i as int]@);
            assert(rest.drop_first() =~= toks.subrange(i + 1 as int, toks.len() as int));
        }
        let tok = &tokens[i];
        let cidx = colon_idx_exec(tok);
        if cidx < tok.len() {
            let kc = copy_range(tok, 0, cidx);
            let vc = copy_range(tok, cidx + 1, tok.len());
            let k = string_from_chars(&kc);
            let v = string_from_chars(&vc);
            upsert_exec(&mut params, k, v);
        }
        i = i + 1;
    }
    proof {
        assert(toks.subrange(toks.len() as int, toks.len() as int)
            =~= Seq::<Seq<char>>::empty());
    }
    if params.len() == 0 {
        let trimmed = trim_spaces_exec(&chars);
        if trimmed.len() > 0 {
            let text = string_from_chars(&trimmed);
            params.push(("text".to_owned(), text));
            proof {
                assert(pairs_view(params@) =~= seq![("text"@, trim_spaces(query@))]);
            }
        }
    }
    params
}

/// Every keyword a token list yields satisfies the keeping rule.
proof fn lemma_keywords_tokens_clean(toks: Seq<Seq<char>>, i: int)
    requires
        0 <= i < keywords_of_tokens(toks).len(),
    ensures
        keep_keyword(keywords_of_tokens(toks)[i]),
    decreases toks.len(),
{
    if toks.len() > 0 {
        let w = keyword_of(toks[0]);
        if keep_keyword(w) {
            if i > 0 {
                lemma_keywords_tokens_clean(toks.drop_first(), i - 1);
            }
        } else {
            lemma_keywords_tokens_clean(toks.drop_first(), i);
        }
    }
}

/// Keyword hygiene: every extracted keyword is at least three
/// characters long, purely alphanumeric, and never a stop word.
pub proof fn lemma_keywords_clean(q: Seq<char>, i: int)
    requires
        0 <= i < keywords_of(q).len(),
    ensures
        keywords_of(q)[i].len() >= 3,
        all_alnum(keywords_of(q)[i]),
        !is_stop_word(keywords_of(q)[i]),
{
    lemma_keywords_tokens_clean(split_ws(q), i);
}

/// Collection fallback: a query whose lower-cased text holds none of
/// the collection keywords resolves to the `novels` collection.
pub proof fn lemma_default_collection(q: Seq<char>)
    requires
        !contains_seq(lower_seq(q), "novel"@),
        !contains_seq(lower_seq(q), "chapter"@),
        !contains_seq(lower_seq(q), "character"@),
        !contains_seq(lower_seq(q), "qa"@),
        !contains_seq(lower_seq(q), "question"@),
        !contains_seq(lower_seq(q), "answer"@),
    ensures
        collection_of(q) == "novels"@,
{
}

} // verus!
