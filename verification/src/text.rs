//! Character-level text utilities: ASCII case folding, character
//! classification, substring search and decimal digits, all specified
//! over `Seq<char>`.
//!
//! Classification is ASCII-based: characters outside the ASCII range are
//! never letters, digits or whitespace for the purposes of this library.

use vstd::prelude::*;

verus! {

/// ASCII lower-casing of a single character; other characters are unchanged.
pub open spec fn lower_char(c: char) -> char {
    if 'A' <= c && c <= 'Z' {
        (((c as u32) + 32) as u8) as char
    } else {
        c
    }
}

/// ASCII lower-casing of a character sequence.
pub open spec fn lower_seq(s: Seq<char>) -> Seq<char> {
    s.map_values(|c: char| lower_char(c))
}

/// ASCII whitespace.
pub open spec fn is_space(c: char) -> bool {
    c == ' ' || c == '\t' || c == '\n' || c == '\r' || c == '\x0b' || c == '\x0c'
}

/// ASCII decimal digit.
pub open spec fn is_digit(c: char) -> bool {
    '0' <= c && c <= '9'
}

/// ASCII letter or digit.
pub open spec fn is_alnum(c: char) -> bool {
    is_digit(c) || ('a' <= c && c <= 'z') || ('A' <= c && c <= 'Z')
}

/// The needle `n` occurs in `h` starting at position `i`.
pub open spec fn is_sub_at(h: Seq<char>, n: Seq<char>, i: int) -> bool {
    0 <= i && i + n.len() <= h.len() && h.subrange(i, i + n.len() as int) == n
}

/// The needle `n` occurs somewhere in `h` (case-sensitive).
pub open spec fn contains_seq(h: Seq<char>, n: Seq<char>) -> bool {
    exists|i: int| is_sub_at(h, n, i)
}

/// `s` begins with the prefix `p`.
pub open spec fn has_prefix(s: Seq<char>, p: Seq<char>) -> bool {
    p.len() <= s.len() && s.subrange(0, p.len() as int) == p
}

/// Whatever follows a known prefix, the concatenation carries it.
pub proof fn lemma_concat_has_prefix(p: Seq<char>, rest: Seq<char>)
    ensures
        has_prefix(p + rest, p),
{
    assert((p + rest).subrange(0, p.len() as int) =~= p);
}

/// Numeric value of a sequence of decimal digits, most significant first.
pub open spec fn dec_value(s: Seq<char>) -> nat
    decreases s.len(),
{
    if s.len() == 0 {
        0
    } else {
        (dec_value(s.drop_last()) * 10 + (s.last() as int - '0' as int)) as nat
    }
}

/// The decimal digit character for a value below ten.
pub open spec fn digit_char(d: int) -> char {
    ((('0' as u32) + d) as u8) as char
}

/// Decimal representation of `n`, most significant digit first, no
/// leading zeros (a single `'0'` for zero).
pub open spec fn dec_digits(n: nat) -> Seq<char>
    decreases n,
{
    if n < 10 {
        seq![digit_char(n as int)]
    } else {
        dec_digits(n / 10) + seq![digit_char((n % 10) as int)]
    }
}

/// Lower-cases one character, ASCII-only.
pub fn lower_char_exec(c: char) -> (r: char)
    ensures
        r == lower_char(c),
{
    if 'A' <= c && c <= 'Z' {
        (((c as u32) + 32) as u8) as char
    } else {
        c
    }
}

/// Lower-cases a character vector, ASCII-only.
pub fn lower_chars(v: &Vec<char>) -> (r: Vec<char>)
    ensures
        r@ == lower_seq(v@),
{
    let mut r: Vec<char> = Vec::new();
    let mut i: usize = 0;
    while i < v.len()
        invariant
            i <= v.len(),
            r@ == lower_seq(v@.subrange(0, i as int)),
        decreases v.len() - i,
    {
        r.push(lower_char_exec(v[i]));
        assert(v@.subrange(0, i + 1 as int).drop_last() =~= v@.subrange(0, i as int));
        assert(r@ =~= lower_seq(v@.subrange(0, i + 1 as int)));
        i = i + 1;
    }
    assert(v@.subrange(0, v@.len() as int) =~= v@);
    r
}

/// ASCII whitespace test.
pub fn is_space_exec(c: char) -> (r: bool)
    ensures
        r == is_space(c),
{
    c == ' ' || c == '\t' || c == '\n' || c == '\r' || c == '\x0b' || c == '\x0c'
}

/// ASCII digit test.
pub fn is_digit_exec(c: char) -> (r: bool)
    ensures
        r == is_digit(c),
{
    '0' <= c && c <= '9'
}

/// ASCII letter-or-digit test.
pub fn is_alnum_exec(c: char) -> (r: bool)
    ensures
        r == is_alnum(c),
{
    is_digit_exec(c) || ('a' <= c && c <= 'z') || ('A' <= c && c <= 'Z')
}

/// Collects the characters of a string slice into a vector.
pub fn chars_vec(s: &str) -> (r: Vec<char>)
    ensures
        r@ == s@,
{
    let n = s.unicode_len();
    let mut r: Vec<char> = Vec::new();
    let mut i: usize = 0;
    while i < n
        invariant
            i <= n,
            n == s@.len(),
            r@ == s@.subrange(0, i as int),
        decreases n - i,
    {
        r.push(s.get_char(i));
        assert(r@ =~= s@.subrange(0, i + 1 as int));
        i = i + 1;
    }
    assert(s@.subrange(0, s@.len() as int) =~= s@);
    r
}

/// Builds an owned string from a character vector.
///
/// Relies on `String`'s `FromIterator<char>` implementation: collecting
/// characters yields a string holding exactly those characters in order.
#[verifier::external_body]
pub fn string_from_chars(v: &Vec<char>) -> (r: String)
    ensures
        r@ == v@,
{
    v.iter().collect()
}

/// Compares two string slices for equality.
pub fn str_eq(a: &str, b: &str) -> (r: bool)
    ensures
        r == (a@ == b@),
{
    let x = a.to_owned();
    let y = b.to_owned();
    x == y
}

/// The needle matches in `h` at position `i`.
fn match_at(h: &Vec<char>, n: &Vec<char>, i: usize) -> (r: bool)
    requires
        i + n@.len() <= h@.len(),
    ensures
        r == is_sub_at(h@, n@, i as int),
{
    let hl = h.len();
    assert(h@.len() <= usize::MAX);
    let mut j: usize = 0;
    while j < n.len()
        invariant
            j <= n@.len(),
            i + n@.len() <= h@.len(),
            h@.len() <= usize::MAX,
            forall|k: int| 0 <= k < j ==> h@[i + k] == n@[k],
        decreases n@.len() - j,
    {
        if h[i + j] != n[j] {
            assert(h@.subrange(i as int, i + n@.len() as int)[j as int] != n@[j as int]);
            return false;
        }
        j = j + 1;
    }
    assert(h@.subrange(i as int, i + n@.len() as int) =~= n@);
    true
}

/// Substring search: does `n` occur anywhere in `h`?
pub fn contains_chars(h: &Vec<char>, n: &Vec<char>) -> (r: bool)
    ensures
        r == contains_seq(h@, n@),
{
    if n.len() > h.len() {
        assert(forall|i: int| !is_sub_at(h@, n@, i));
        return false;
    }
    if n.len() == 0 {
        assert(h@.subrange(0, 0) =~= n@);
        assert(is_sub_at(h@, n@, 0));
        return true;
    }
    let end = h.len() - n.len();
    let mut i: usize = 0;
    while i <= end
        invariant
            n@.len() >= 1,
            end + n@.len() == h@.len(),
            h@.len() <= usize::MAX,
            i <= end + 1,
            forall|k: int| 0 <= k < i ==> !is_sub_at(h@, n@, k),
        decreases end + 1 - i,
    {
        if match_at(h, n, i) {
            assert(is_sub_at(h@, n@, i as int));
            return true;
        }
        i = i + 1;
    }
    assert(forall|k: int| k > end ==> !is_sub_at(h@, n@, k));
    false
}

/// Does the lower-cased haystack contain the needle?
pub fn contains_lowered(h: &Vec<char>, n: &str) -> (r: bool)
    ensures
        r == contains_seq(lower_seq(h@), n@),
{
    let lowered = lower_chars(h);
    let needle = chars_vec(n);
    contains_chars(&lowered, &needle)
}

/// Renders an unsigned number in decimal.
pub fn u64_to_string(n: u64) -> (r: String)
    ensures
        r@ == dec_digits(n as nat),
{
    let mut digits_rev: Vec<char> = Vec::new();
    let mut m: u64 = n;
    if m == 0 {
        digits_rev.push('0');
        assert(digits_rev@ =~= dec_digits(0));
    } else {
        while m > 0
            invariant
                0 <= m,
                m > 0 ==> dec_digits(n as nat) =~= dec_digits(m as nat)
                    + digits_rev@.reverse(),
                m == 0 ==> dec_digits(n as nat) =~= digits_rev@.reverse(),
            decreases m,
        {
            let d: u64 = m % 10;
            let c = ((('0' as u32) + (d as u32)) as u8) as char;
            assert(c == digit_char(d as int));
            let ghost old_rev = digits_rev@;
            digits_rev.push(c);
            let ghost prev_m = m as nat;
            m = m / 10;
            proof {
                assert(digits_rev@.reverse() =~= seq![digit_char((prev_m % 10) as int)]
                    + old_rev.reverse());
                if m > 0 {
                    assert(dec_digits(prev_m) =~= dec_digits(prev_m / 10)
                        + seq![digit_char((prev_m % 10) as int)]);
                    assert(dec_digits(m as nat) + digits_rev@.reverse() =~= dec_digits(prev_m)
                        + old_rev.reverse());
                } else {
                    assert(prev_m < 10);
                    assert(dec_digits(prev_m) =~= seq![digit_char(prev_m as int)]);
                    assert(dec_digits(n as nat) =~= digits_rev@.reverse());
                }
            }
        }
    }
    let mut out: Vec<char> = Vec::new();
    let mut i: usize = digits_rev.len();
    while i > 0
        invariant
            i <= digits_rev@.len(),
            out@ =~= digits_rev@.subrange(i as int, digits_rev@.len() as int).reverse(),
        decreases i,
    {
        i = i - 1;
        out.push(digits_rev[i]);
        assert(out@ =~= digits_rev@.subrange(i as int, digits_rev@.len() as int).reverse());
    }
    assert(out@ =~= digits_rev@.reverse());
    string_from_chars(&out)
}

/// Renders an unsigned 128-bit number in decimal.
pub fn u128_to_string(n: u128) -> (r: String)
    ensures
        r@ == dec_digits(n as nat),
{
    let mut digits_rev: Vec<char> = Vec::new();
    let mut m: u128 = n;
    if m == 0 {
        digits_rev.push('0');
        assert(digits_rev@ =~= dec_digits(0));
    } else {
        while m > 0
            invariant
                0 <= m,
                m > 0 ==> dec_digits(n as nat) =~= dec_digits(m as nat)
                    + digits_rev@.reverse(),
                m == 0 ==> dec_digits(n as nat) =~= digits_rev@.reverse(),
            decreases m,
        {
            let d: u128 = m % 10;
            let c = ((('0' as u32) + (d as u32)) as u8) as char;
            assert(c == digit_char(d as int));
            let ghost old_rev = digits_rev@;
            digits_rev.push(c);
            let ghost prev_m = m as nat;
            m = m / 10;
            proof {
                assert(digits_rev@.reverse() =~= seq![digit_char((prev_m % 10) as int)]
                    + old_rev.reverse());
                if m > 0 {
                    assert(dec_digits(prev_m) =~= dec_digits(prev_m / 10)
                        + seq![digit_char((prev_m % 10) as int)]);
                    assert(dec_digits(m as nat) + digits_rev@.reverse() =~= dec_digits(prev_m)
                        + old_rev.reverse());
                } else {
                    assert(prev_m < 10);
                    assert(dec_digits(prev_m) =~= seq![digit_char(prev_m as int)]);
                    assert(dec_digits(n as nat) =~= digits_rev@.reverse());
                }
            }
        }
    }
    let mut out: Vec<char> = Vec::new();
    let mut i: usize = digits_rev.len();
    while i > 0
        invariant
            i <= digits_rev@.len(),
            out@ =~= digits_rev@.subrange(i as int, digits_rev@.len() as int).reverse(),
        decreases i,
    {
        i = i - 1;
        out.push(digits_rev[i]);
        assert(out@ =~= digits_rev@.subrange(i as int, digits_rev@.len() as int).reverse());
    }
    assert(out@ =~= digits_rev@.reverse());
    string_from_chars(&out)
}

/// Parses a non-empty run of decimal digits; `None` when the value
/// exceeds `u32::MAX`.
pub fn parse_u32_digits(s: &Vec<char>) -> (r: Option<u32>)
    requires
        s@.len() > 0,
        forall|i: int| 0 <= i < s@.len() ==> is_digit(#[trigger] s@[i]),
    ensures
        match r {
            Some(v) => v as nat == dec_value(s@),
            None => dec_value(s@) > u32::MAX,
        },
{
    let mut acc: u64 = 0;
    let mut i: usize = 0;
    while i < s.len()
        invariant
            i <= s@.len(),
            forall|k: int| 0 <= k < s@.len() ==> is_digit(#[trigger] s@[k]),
            acc as nat == dec_value(s@.subrange(0, i as int)),
            acc <= u32::MAX,
        decreases s@.len() - i,
    {
        let c = s[i];
        let d: u32 = (c as u32) - ('0' as u32);
        let next: u64 = acc * 10 + (d as u64);
        proof {
            assert(s@.subrange(0, i + 1 as int).drop_last() =~= s@.subrange(0, i as int));
            assert(dec_value(s@.subrange(0, i + 1 as int)) == acc as nat * 10 + d);
        }
        if next > u32::MAX as u64 {
            proof {
                lemma_dec_value_monotone(s@, i + 1 as int);
            }
            return None;
        }
        acc = next;
        i = i + 1;
    }
    assert(s@.subrange(0, s@.len() as int) =~= s@);
    Some(acc as u32)
}

/// A digit string's value is at least the value of any of its prefixes.
proof fn lemma_dec_value_monotone(s: Seq<char>, i: int)
    requires
        0 <= i <= s.len(),
        forall|k: int| 0 <= k < s.len() ==> is_digit(#[trigger] s[k]),
    ensures
        dec_value(s) >= dec_value(s.subrange(0, i)),
    decreases s.len() - i,
{
    if i < s.len() {
        lemma_dec_value_monotone(s, i + 1);
        assert(s.subrange(0, i + 1).drop_last() =~= s.subrange(0, i));
        assert(is_digit(s[i]));
        assert(s.subrange(0, i + 1).last() == s[i]);
        assert(dec_value(s.subrange(0, i + 1)) >= dec_value(s.subrange(0, i)));
    } else {
        assert(s.subrange(0, s.len() as int) =~= s);
    }
}

/// The lexicographic order is total: of any two sequences, one
/// precedes the other.
pub proof fn lemma_lex_total(a: Seq<char>, b: Seq<char>)
    ensures
        lex_le(a, b) || lex_le(b, a),
    decreases a.len(),
{
    if a.len() == 0 {
    } else if b.len() == 0 {
    } else if (a[0] as u32) < (b[0] as u32) {
    } else if (a[0] as u32) > (b[0] as u32) {
    } else {
        lemma_lex_total(a.drop_first(), b.drop_first());
    }
}

/// The lexicographic order is transitive.
pub proof fn lemma_lex_trans(a: Seq<char>, b: Seq<char>, c: Seq<char>)
    requires
        lex_le(a, b),
        lex_le(b, c),
    ensures
        lex_le(a, c),
    decreases a.len(),
{
    if a.len() == 0 {
    } else {
        assert(b.len() > 0);
        assert(c.len() > 0);
        if (a[0] as u32) < (b[0] as u32) {
        } else {
            assert((a[0] as u32) == (b[0] as u32));
            if (b[0] as u32) < (c[0] as u32) {
            } else {
                assert((b[0] as u32) == (c[0] as u32));
                lemma_lex_trans(a.drop_first(), b.drop_first(), c.drop_first());
            }
        }
    }
}

/// Drops leading characters that are not ASCII alphanumeric.
pub open spec fn trim_front_non_alnum(t: Seq<char>) -> Seq<char>
    decreases t.len(),
{
    if t.len() > 0 && !is_alnum(t[0]) {
        trim_front_non_alnum(t.drop_first())
    } else {
        t
    }
}

/// Drops trailing characters that are not ASCII alphanumeric.
pub open spec fn trim_back_non_alnum(t: Seq<char>) -> Seq<char>
    decreases t.len(),
{
    if t.len() > 0 && !is_alnum(t.last()) {
        trim_back_non_alnum(t.drop_last())
    } else {
        t
    }
}

/// Strips leading and trailing non-alphanumeric characters.
pub open spec fn trim_non_alnum(t: Seq<char>) -> Seq<char> {
    trim_back_non_alnum(trim_front_non_alnum(t))
}

/// Strips leading and trailing non-alphanumeric characters.
pub fn trim_non_alnum_exec(v: &Vec<char>) -> (r: Vec<char>)
    ensures
        r@ == trim_non_alnum(v@),
{
    proof {
        assert(v@.subrange(0, v@.len() as int) =~= v@);
    }
    let mut start: usize = 0;
    while start < v.len() && !is_alnum_exec(v[start])
        invariant
            start <= v@.len(),
            trim_front_non_alnum(v@) == trim_front_non_alnum(
                v@.subrange(start as int, v@.len() as int)),
        decreases v@.len() - start,
    {
        proof {
            let rest = v@.subrange(start as int, v@.len() as int);
            assert(rest[0] == v@[start as int]);
            assert(rest.drop_first() =~= v@.subrange(start + 1 as int, v@.len() as int));
        }
        start = start + 1;
    }
    proof {
        let rest = v@.subrange(start as int, v@.len() as int);
        if start < v@.len() {
            assert(rest[0] == v@[start as int]);
        }
        assert(trim_front_non_alnum(v@) == rest);
    }
    let mut end: usize = v.len();
    while end > start && !is_alnum_exec(v[end - 1])
        invariant
            start <= end <= v@.len(),
            trim_back_non_alnum(v@.subrange(start as int, v@.len() as int))
                == trim_back_non_alnum(v@.subrange(start as int, end as int)),
        decreases end,
    {
        proof {
            let cur = v@.subrange(start as int, end as int);
            assert(cur.last() == v@[end - 1]);
            assert(cur.drop_last() =~= v@.subrange(start as int, end - 1));
        }
        end = end - 1;
    }
    proof {
        let cur = v@.subrange(start as int, end as int);
        if end > start {
            assert(cur.last() == v@[end - 1]);
        }
        assert(trim_non_alnum(v@) == cur);
    }
    let mut r: Vec<char> = Vec::new();
    let mut i: usize = start;
    while i < end
        invariant
            start <= i <= end <= v@.len(),
            r@ == v@.subrange(start as int, i as int),
        decreases end - i,
    {
        r.push(v[i]);
        assert(r@ =~= v@.subrange(start as int, i + 1 as int));
        i = i + 1;
    }
    r
}

/// Drops leading ASCII whitespace.
pub open spec fn trim_front_spaces(t: Seq<char>) -> Seq<char>
    decreases t.len(),
{
    if t.len() > 0 && is_space(t[0]) {
        trim_front_spaces(t.drop_first())
    } else {
        t
    }
}

/// Drops trailing ASCII whitespace.
pub open spec fn trim_back_spaces(t: Seq<char>) -> Seq<char>
    decreases t.len(),
{
    if t.len() > 0 && is_space(t.last()) {
        trim_back_spaces(t.drop_last())
    } else {
        t
    }
}

/// Strips leading and trailing ASCII whitespace.
pub open spec fn trim_spaces(t: Seq<char>) -> Seq<char> {
    trim_back_spaces(trim_front_spaces(t))
}

/// Strips leading and trailing ASCII whitespace.
pub fn trim_spaces_exec(v: &Vec<char>) -> (r: Vec<char>)
    ensures
        r@ == trim_spaces(v@),
{
    proof {
        assert(v@.subrange(0, v@.len() as int) =~= v@);
    }
    let mut start: usize = 0;
    while start < v.len() && is_space_exec(v[start])
        invariant
            start <= v@.len(),
            trim_front_spaces(v@) == trim_front_spaces(
                v@.subrange(start as int, v@.len() as int)),
        decreases v@.len() - start,
    {
        proof {
            let rest = v@.subrange(start as int, v@.len() as int);
            assert(rest[0] == v@[start as int]);
            assert(rest.drop_first() =~= v@.subrange(start + 1 as int, v@.len() as int));
        }
        start = start + 1;
    }
    proof {
        let rest = v@.subrange(start as int, v@.len() as int);
        if start < v@.len() {
            assert(rest[0] == v@[start as int]);
        }
        assert(trim_front_spaces(v@) == rest);
    }
    let mut end: usize = v.len();
    while end > start && is_space_exec(v[end - 1])
        invariant
            start <= end <= v@.len(),
            trim_back_spaces(v@.subrange(start as int, v@.len() as int))
                == trim_back_spaces(v@.subrange(start as int, end as int)),
        decreases end,
    {
        proof {
            let cur = v@.subrange(start as int, end as int);
            assert(cur.last() == v@[end - 1]);
            assert(cur.drop_last() =~= v@.subrange(start as int, end - 1));
        }
        end = end - 1;
    }
    proof {
        let cur = v@.subrange(start as int, end as int);
        if end > start {
            assert(cur.last() == v@[end - 1]);
        }
        assert(trim_spaces(v@) == cur);
    }
    copy_range(v, start, end)
}

/// Copies the characters of `v` between `a` (inclusive) and `b`
/// (exclusive) into a fresh vector.
pub fn copy_range(v: &Vec<char>, a: usize, b: usize) -> (r: Vec<char>)
    requires
        a <= b <= v@.len(),
    ensures
        r@ == v@.subrange(a as int, b as int),
{
    let mut r: Vec<char> = Vec::new();
    let mut i: usize = a;
    while i < b
        invariant
            a <= i <= b <= v@.len(),
            r@ == v@.subrange(a as int, i as int),
        decreases b - i,
    {
        r.push(v[i]);
        assert(r@ =~= v@.subrange(a as int, i + 1 as int));
        i = i + 1;
    }
    r
}

/// Tests whether `n` occurs in `h` at exactly position `i`.
pub fn sub_at_exec(h: &Vec<char>, n: &Vec<char>, i: usize) -> (r: bool)
    ensures
        r == is_sub_at(h@, n@, i as int),
{
    if i > h.len() || n.len() > h.len() - i {
        return false;
    }
    match_at(h, n, i)
}

/// Appends all characters of `e` to `v`.
pub fn push_all(v: &mut Vec<char>, e: &Vec<char>)
    ensures
        final(v)@ == old(v)@ + e@,
{
    let ghost start = v@;
    let mut k: usize = 0;
    while k < e.len()
        invariant
            k <= e@.len(),
            v@ == start + e@.subrange(0, k as int),
        decreases e@.len() - k,
    {
        v.push(e[k]);
        assert(v@ =~= start + e@.subrange(0, k + 1 as int));
        k = k + 1;
    }
    assert(v@ =~= start + e@);
}

/// Lexicographic (code-point) order on character sequences.
pub open spec fn lex_le(a: Seq<char>, b: Seq<char>) -> bool
    decreases a.len(),
{
    if a.len() == 0 {
        true
    } else if b.len() == 0 {
        false
    } else if (a[0] as u32) < (b[0] as u32) {
        true
    } else if (a[0] as u32) > (b[0] as u32) {
        false
    } else {
        lex_le(a.drop_first(), b.drop_first())
    }
}

/// Lexicographic comparison of two character vectors.
pub fn lex_le_chars(a: &Vec<char>, b: &Vec<char>) -> (r: bool)
    ensures
        r == lex_le(a@, b@),
{
    proof {
        assert(a@.subrange(0, a@.len() as int) =~= a@);
        assert(b@.subrange(0, b@.len() as int) =~= b@);
    }
    let mut i: usize = 0;
    while i < a.len() && i < b.len()
        invariant
            i <= a@.len(),
            i <= b@.len(),
            lex_le(a@, b@) == lex_le(a@.subrange(i as int, a@.len() as int),
                b@.subrange(i as int, b@.len() as int)),
        decreases a@.len() - i,
    {
        let ca = a[i];
        let cb = b[i];
        let ghost ra = a@.subrange(i as int, a@.len() as int);
        let ghost rb = b@.subrange(i as int, b@.len() as int);
        proof {
            assert(ra.len() > 0);
            assert(rb.len() > 0);
            assert(ra[0] == a@[i as int]);
            assert(rb[0] == b@[i as int]);
            assert(ra.drop_first() =~= a@.subrange(i + 1 as int, a@.len() as int));
            assert(rb.drop_first() =~= b@.subrange(i + 1 as int, b@.len() as int));
        }
        if (ca as u32) < (cb as u32) {
            assert(lex_le(ra, rb));
            return true;
        }
        if (ca as u32) > (cb as u32) {
            assert(!lex_le(ra, rb));
            return false;
        }
        assert(lex_le(ra, rb) == lex_le(ra.drop_first(), rb.drop_first()));
        i = i + 1;
    }
    proof {
        let ra = a@.subrange(i as int, a@.len() as int);
        let rb = b@.subrange(i as int, b@.len() as int);
        if i >= a@.len() {
            assert(ra.len() == 0);
            assert(lex_le(ra, rb));
        } else {
            assert(rb.len() == 0);
            assert(ra.len() > 0);
            assert(!lex_le(ra, rb));
        }
    }
    i >= a.len()
}

/// `s` cut to `max` characters, with a trailing ellipsis marker when a
/// cut was made.
pub open spec fn truncated(s: Seq<char>, max: nat) -> Seq<char> {
    if s.len() <= max {
        s
    } else {
        s.subrange(0, max as int) + "..."@
    }
}

/// Shortens `text` to at most `max_length` characters, appending an
/// ellipsis marker when a cut was made.  The cut is a plain character
/// cut, not word-boundary aware.
pub fn truncate_text(text: &str, max_length: usize) -> (r: String)
    ensures
        r@ == truncated(text@, max_length as nat),
{
    let chars = chars_vec(text);
    if chars.len() <= max_length {
        let r = string_from_chars(&chars);
        r
    } else {
        let mut prefix: Vec<char> = Vec::new();
        let mut i: usize = 0;
        while i < max_length
            invariant
                i <= max_length,
                max_length < chars@.len(),
                chars@ == text@,
                prefix@ == text@.subrange(0, i as int),
            decreases max_length - i,
        {
            prefix.push(chars[i]);
            assert(prefix@ =~= text@.subrange(0, i + 1 as int));
            i = i + 1;
        }
        let mut r = string_from_chars(&prefix);
        r.append("...");
        r
    }
}

} // verus!
