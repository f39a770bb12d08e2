//! Character-level text operations, each stated over `Seq<char>`.

use crate::search::{lemma_utf8_len_prefix, utf8_len};
use vstd::prelude::*;

verus! {

broadcast use vstd::string::group_string_axioms;

/// The characters of a string slice, in order.
pub fn str_chars(s: &str) -> (out: Vec<char>)
    ensures
        out@ == s@,
{
    let mut out: Vec<char> = Vec::new();
    for c in it: s.chars()
        invariant
            out@ == it.seq().take(it.index() as int),
            it.seq() == s@,
    {
        out.push(c);
    }
    out
}

/// Wraps `FromIterator<char> for String`: the string made of the given characters.
#[verifier::external_body]
pub(crate) fn string_from_chars(chars: &[char]) -> (out: String)
    ensures
        out@ == chars@,
{
    chars.iter().collect()
}

pub open spec fn lower_ascii(c: char) -> char {
    if 'A' <= c && c <= 'Z' {
        ((c as u32) + 32) as char
    } else {
        c
    }
}

pub fn char_lower_ascii(c: char) -> (out: char)
    ensures
        out == lower_ascii(c),
{
    if 'A' <= c && c <= 'Z' {
        let u: u8 = c as u8;
        (u + 32) as char
    } else {
        c
    }
}


pub open spec fn lower_ascii_seq(s: Seq<char>) -> Seq<char> {
    s.map_values(|c: char| lower_ascii(c))
}

/// The string with its ASCII letters lowercased, as `to_ascii_lowercase` does.
pub fn chars_lower_ascii(s: &[char]) -> (out: Vec<char>)
    ensures
        out@ == lower_ascii_seq(s@),
{
    let mut out: Vec<char> = Vec::new();
    let mut i: usize = 0;
    while i < s.len()
        invariant
            i <= s.len(),
            out@ =~= lower_ascii_seq(s@.take(i as int)),
        decreases s.len() - i,
    {
        out.push(char_lower_ascii(s[i]));
        i += 1;
        assert(lower_ascii_seq(s@.take(i as int)) =~= lower_ascii_seq(s@.take(i - 1)).push(lower_ascii(s@[i - 1])));
    }
    assert(s@.take(s.len() as int) =~= s@);
    out
}

/// Unicode `White_Space`, the property `char::is_whitespace` tests.
pub open spec fn is_ws(c: char) -> bool {
    let u = c as u32;
    (0x09 <= u && u <= 0x0d) || u == 0x20 || u == 0x85 || u == 0xa0 || u == 0x1680
        || (0x2000 <= u && u <= 0x200a) || u == 0x2028 || u == 0x2029 || u == 0x202f
        || u == 0x205f || u == 0x3000
}

pub fn char_is_ws(c: char) -> (out: bool)
    ensures
        out == is_ws(c),
{
    let u = c as u32;
    (0x09 <= u && u <= 0x0d) || u == 0x20 || u == 0x85 || u == 0xa0 || u == 0x1680
        || (0x2000 <= u && u <= 0x200a) || u == 0x2028 || u == 0x2029 || u == 0x202f
        || u == 0x205f || u == 0x3000
}

pub open spec fn is_ascii_digit(c: char) -> bool {
    '0' <= c && c <= '9'
}

pub open spec fn is_ascii_alnum(c: char) -> bool {
    ('0' <= c && c <= '9') || ('a' <= c && c <= 'z') || ('A' <= c && c <= 'Z')
}

pub open spec fn is_ascii_lower(c: char) -> bool {
    'a' <= c && c <= 'z'
}

/// `pat` occurs in `s` at position `i`.
pub open spec fn matches_at(s: Seq<char>, i: int, pat: Seq<char>) -> bool {
    &&& 0 <= i
    &&& i + pat.len() <= s.len()
    &&& forall|k: int| 0 <= k < pat.len() ==> #[trigger] s[i + k] == pat[k]
}

/// The first position at or after `from` where `pat` occurs in `s`.
pub open spec fn find_from(s: Seq<char>, pat: Seq<char>, from: int) -> Option<int>
    decreases s.len() - from,
{
    if from < 0 || from + pat.len() > s.len() {
        None
    } else if matches_at(s, from, pat) {
        Some(from)
    } else {
        find_from(s, pat, from + 1)
    }
}

pub proof fn lemma_find_from_bounds(s: Seq<char>, pat: Seq<char>, from: int)
    requires
        0 <= from,
    ensures
        find_from(s, pat, from) matches Some(k) ==> from <= k && k + pat.len() <= s.len()
            && matches_at(s, k, pat),
        find_from(s, pat, from) matches Some(k) ==> forall|j: int|
            from <= j < k ==> !#[trigger] matches_at(s, j, pat),
        find_from(s, pat, from) is None ==> forall|j: int|
            from <= j ==> !#[trigger] matches_at(s, j, pat),
    decreases s.len() - from,
{
    if from + pat.len() > s.len() {
    } else if matches_at(s, from, pat) {
    } else {
        lemma_find_from_bounds(s, pat, from + 1);
    }
}

pub fn chars_match_at(s: &[char], i: usize, pat: &[char]) -> (out: bool)
    ensures
        out == matches_at(s@, i as int, pat@),
{
    if i > s.len() || pat.len() > s.len() - i {
        return false;
    }
    let mut k: usize = 0;
    while k < pat.len()
        invariant
            k <= pat.len(),
            i + pat.len() <= s.len(),
            forall|j: int| 0 <= j < k ==> #[trigger] s@[i + j] == pat@[j],
        decreases pat.len() - k,
    {
        if s[i + k] != pat[k] {
            assert(s@[i + k] != pat@[k as int]);
            return false;
        }
        k += 1;
    }
    true
}

/// Position of the first `pat` at or after `from` in `s`.
pub fn chars_find_from(s: &[char], pat: &[char], from: usize) -> (out: Option<usize>)
    ensures
        out matches Some(k) ==> find_from(s@, pat@, from as int) == Some(k as int),
        out is None ==> find_from(s@, pat@, from as int) is None,
{
    let mut i: usize = from;
    while i <= s.len() && pat.len() <= s.len() - i
        invariant
            from <= i,
            find_from(s@, pat@, from as int) == find_from(s@, pat@, i as int),
        decreases s.len() + 1 - i,
    {
        if chars_match_at(s, i, pat) {
            return Some(i);
        }
        i += 1;
    }
    None
}


/// The characters `s[from..to]`.
pub fn chars_sub(s: &[char], from: usize, to: usize) -> (out: Vec<char>)
    requires
        from <= to <= s.len(),
    ensures
        out@ == s@.subrange(from as int, to as int),
{
    let mut out: Vec<char> = Vec::new();
    let mut i: usize = from;
    while i < to
        invariant
            from <= i <= to <= s.len(),
            out@ =~= s@.subrange(from as int, i as int),
        decreases to - i,
    {
        out.push(s[i]);
        i += 1;
    }
    out
}

/// Appends `s[from..to]` to `out`.
pub fn push_sub(out: &mut Vec<char>, s: &[char], from: usize, to: usize)
    requires
        from <= to <= s.len(),
    ensures
        final(out)@ == old(out)@ + s@.subrange(from as int, to as int),
{
    let mut i: usize = from;
    while i < to
        invariant
            from <= i <= to <= s.len(),
            out@ =~= old(out)@ + s@.subrange(from as int, i as int),
        decreases to - i,
    {
        out.push(s[i]);
        i += 1;
    }
}

/// Appends all of `s` to `out`.
pub fn push_all(out: &mut Vec<char>, s: &[char])
    ensures
        final(out)@ == old(out)@ + s@,
{
    push_sub(out, s, 0, s.len());
    assert(s@.subrange(0, s@.len() as int) =~= s@);
}

/// First index at or after `i` that is not whitespace.
pub open spec fn skip_ws(s: Seq<char>, i: int) -> int
    decreases s.len() - i,
{
    if i < s.len() && is_ws(s[i]) {
        skip_ws(s, i + 1)
    } else {
        i
    }
}

/// First index at or after `i` that is whitespace.
pub open spec fn skip_non_ws(s: Seq<char>, i: int) -> int
    decreases s.len() - i,
{
    if i < s.len() && !is_ws(s[i]) {
        skip_non_ws(s, i + 1)
    } else {
        i
    }
}

/// One past the last non-whitespace index before `j`.
pub open spec fn trim_end_at(s: Seq<char>, j: int) -> int
    decreases j,
{
    if 0 < j && j <= s.len() && is_ws(s[j - 1]) {
        trim_end_at(s, j - 1)
    } else {
        j
    }
}

pub proof fn lemma_skip_bounds(s: Seq<char>, i: int)
    requires
        0 <= i <= s.len(),
    ensures
        i <= skip_ws(s, i) <= s.len(),
        i <= skip_non_ws(s, i) <= s.len(),
        forall|k: int| i <= k < skip_ws(s, i) ==> is_ws(#[trigger] s[k]),
        forall|k: int| i <= k < skip_non_ws(s, i) ==> !is_ws(#[trigger] s[k]),
        skip_ws(s, i) < s.len() ==> !is_ws(s[skip_ws(s, i)]),
        skip_non_ws(s, i) < s.len() ==> is_ws(s[skip_non_ws(s, i)]),
    decreases s.len() - i,
{
    if i < s.len() {
        lemma_skip_bounds(s, i + 1);
    }
}

pub proof fn lemma_trim_end_bounds(s: Seq<char>, j: int)
    requires
        0 <= j <= s.len(),
    ensures
        0 <= trim_end_at(s, j) <= j,
        forall|k: int| trim_end_at(s, j) <= k < j ==> is_ws(#[trigger] s[k]),
    decreases j,
{
    if 0 < j && is_ws(s[j - 1]) {
        lemma_trim_end_bounds(s, j - 1);
    }
}

pub fn chars_skip_ws(s: &[char], i: usize) -> (out: usize)
    requires
        i <= s.len(),
    ensures
        out == skip_ws(s@, i as int),
{
    let mut k = i;
    while k < s.len() && char_is_ws(s[k])
        invariant
            i <= k <= s.len(),
            skip_ws(s@, i as int) == skip_ws(s@, k as int),
        decreases s.len() - k,
    {
        k += 1;
    }
    k
}

pub fn chars_skip_non_ws(s: &[char], i: usize) -> (out: usize)
    requires
        i <= s.len(),
    ensures
        out == skip_non_ws(s@, i as int),
{
    let mut k = i;
    while k < s.len() && !char_is_ws(s[k])
        invariant
            i <= k <= s.len(),
            skip_non_ws(s@, i as int) == skip_non_ws(s@, k as int),
        decreases s.len() - k,
    {
        k += 1;
    }
    k
}

pub fn chars_trim_end_at(s: &[char], j: usize) -> (out: usize)
    requires
        j <= s.len(),
    ensures
        out == trim_end_at(s@, j as int),
{
    let mut k = j;
    while k > 0 && char_is_ws(s[k - 1])
        invariant
            k <= j <= s.len(),
            trim_end_at(s@, j as int) == trim_end_at(s@, k as int),
        decreases k,
    {
        k -= 1;
    }
    k
}

/// `str::trim_start`: the text without its leading whitespace.
pub open spec fn trim_start(s: Seq<char>) -> Seq<char> {
    s.subrange(skip_ws(s, 0), s.len() as int)
}

/// `str::trim_end`: the text without its trailing whitespace.
pub open spec fn trim_end(s: Seq<char>) -> Seq<char> {
    s.subrange(0, trim_end_at(s, s.len() as int))
}

/// `str::trim`: the text without leading or trailing whitespace.
pub open spec fn trim(s: Seq<char>) -> Seq<char> {
    trim_end(trim_start(s))
}

pub fn chars_trim(s: &[char]) -> (out: Vec<char>)
    ensures
        out@ == trim(s@),
{
    let a = chars_skip_ws(s, 0);
    proof { lemma_skip_bounds(s@, 0); }
    let t = chars_sub(s, a, s.len());
    let b = chars_trim_end_at(&t, t.len());
    proof { lemma_trim_end_bounds(t@, t@.len() as int); }
    chars_sub(&t, 0, b)
}

/// `str::split_whitespace` from index `i`: the maximal runs of non-whitespace.
pub open spec fn words_from(s: Seq<char>, i: int) -> Seq<Seq<char>>
    decreases s.len() - i,
    when 0 <= i <= s.len()
{
    let j = skip_ws(s, i);
    if j >= s.len() || j < i {
        seq![]
    } else {
        let k = skip_non_ws(s, j);
        if k <= j || k > s.len() {
            seq![]
        } else {
            seq![s.subrange(j, k)] + words_from(s, k)
        }
    }
}

pub open spec fn words(s: Seq<char>) -> Seq<Seq<char>> {
    words_from(s, 0)
}

/// The whitespace-separated words of `s`, as `str::split_whitespace` yields them.
pub fn chars_words(s: &[char]) -> (out: Vec<Vec<char>>)
    ensures
        out@.map_values(|w: Vec<char>| w@) == words(s@),
{
    let mut out: Vec<Vec<char>> = Vec::new();
    let mut i: usize = 0;
    while i < s.len()
        invariant
            i <= s.len(),
            out@.map_values(|w: Vec<char>| w@) + words_from(s@, i as int) == words(s@),
        ensures
            i == s.len(),
            out@.map_values(|w: Vec<char>| w@) + words_from(s@, i as int) == words(s@),
        decreases s.len() - i,
    {
        let j = chars_skip_ws(s, i);
        proof { lemma_skip_bounds(s@, i as int); }
        if j == s.len() {
            assert(words_from(s@, i as int) =~= seq![]);
            i = j;
            assert(skip_ws(s@, i as int) == i);
            break;
        }
        let k = chars_skip_non_ws(s, j);
        proof { lemma_skip_bounds(s@, j as int); }
        let w = chars_sub(s, j, k);
        let ghost before = out@.map_values(|w: Vec<char>| w@);
        out.push(w);
        assert(out@.map_values(|w: Vec<char>| w@) =~= before.push(s@.subrange(j as int, k as int)));
        assert(words_from(s@, i as int) == seq![s@.subrange(j as int, k as int)] + words_from(s@, k as int));
        assert(before + words_from(s@, i as int) =~= before.push(s@.subrange(j as int, k as int)) + words_from(s@, k as int));
        i = k;
    }
    assert(i == s.len());
    assert(skip_ws(s@, i as int) == i);
    assert(words_from(s@, i as int) =~= seq![]);
    assert(out@.map_values(|w: Vec<char>| w@) =~= out@.map_values(|w: Vec<char>| w@) + words_from(s@, i as int));
    out
}


/// Whether two character sequences are equal.
pub fn chars_eq(a: &[char], b: &[char]) -> (out: bool)
    ensures
        out == (a@ == b@),
{
    if a.len() != b.len() {
        return false;
    }
    let mut i: usize = 0;
    while i < a.len()
        invariant
            i <= a.len() == b.len(),
            forall|k: int| 0 <= k < i ==> a@[k] == b@[k],
        decreases a.len() - i,
    {
        if a[i] != b[i] {
            return false;
        }
        i += 1;
    }
    assert(a@ =~= b@);
    true
}

pub open spec fn digit_char(d: int) -> char {
    seq!['0', '1', '2', '3', '4', '5', '6', '7', '8', '9'][d]
}

/// The decimal digits of `n`, as `usize::to_string` writes them.
pub open spec fn decimal(n: nat) -> Seq<char>
    decreases n,
{
    if n < 10 {
        seq![digit_char(n as int)]
    } else {
        decimal(n / 10).push(digit_char((n % 10) as int))
    }
}

/// The decimal form of an integer, with `-` before a negative one.
pub open spec fn signed_decimal(n: int) -> Seq<char> {
    if n < 0 {
        seq!['-'] + decimal((-n) as nat)
    } else {
        decimal(n as nat)
    }
}

fn digit(d: u64) -> (c: char)
    requires
        d < 10,
    ensures
        c == digit_char(d as int),
{
    let table = ['0', '1', '2', '3', '4', '5', '6', '7', '8', '9'];
    let c = table[d as usize];
    assert(table@ =~= seq!['0', '1', '2', '3', '4', '5', '6', '7', '8', '9']);
    c
}

pub fn push_decimal_u64(out: &mut Vec<char>, n: u64)
    ensures
        final(out)@ == old(out)@ + decimal(n as nat),
    decreases n,
{
    if n < 10 {
        out.push(digit(n));
        assert(decimal(n as nat) =~= seq![digit_char(n as int)]);
    } else {
        push_decimal_u64(out, n / 10);
        out.push(digit(n % 10));
    }
}

pub fn push_decimal_usize(out: &mut Vec<char>, n: usize)
    ensures
        final(out)@ == old(out)@ + decimal(n as nat),
{
    push_decimal_u64(out, n as u64);
}

pub fn push_decimal_i64(out: &mut Vec<char>, n: i64)
    ensures
        final(out)@ == old(out)@ + signed_decimal(n as int),
{
    if n < 0 {
        out.push('-');
        let m: u64 = if n == i64::MIN { 9223372036854775808u64 } else { (-n) as u64 };
        push_decimal_u64(out, m);
        assert(old(out)@.push('-') + decimal(m as nat) =~= old(out)@ + (seq!['-'] + decimal(m as nat)));
    } else {
        push_decimal_u64(out, n as u64);
    }
}

pub open spec fn digit_value(c: char) -> int {
    (c as u32) - ('0' as u32)
}

pub open spec fn all_digits(s: Seq<char>) -> bool {
    forall|i: int| 0 <= i < s.len() ==> is_ascii_digit(#[trigger] s[i])
}

/// The number the decimal digits of `s` denote.
pub open spec fn digits_value(s: Seq<char>) -> nat
    decreases s.len(),
{
    if s.len() == 0 {
        0
    } else {
        (digits_value(s.drop_last()) * 10 + digit_value(s.last())) as nat
    }
}

/// `s` without one leading `+`, as integer parsing accepts it.
pub open spec fn unsigned_digits(s: Seq<char>) -> Seq<char> {
    if s.len() > 0 && s[0] == '+' {
        s.drop_first()
    } else {
        s
    }
}

/// `str::parse::<usize>`: an optional `+` and one or more ASCII digits
/// whose value fits in `usize`.
pub open spec fn parse_usize(s: Seq<char>) -> Option<usize> {
    let d = unsigned_digits(s);
    if d.len() > 0 && all_digits(d) && digits_value(d) <= usize::MAX {
        Some(digits_value(d) as usize)
    } else {
        None
    }
}

/// `str::parse::<i64>`: an optional sign and one or more ASCII digits
/// whose value fits in `i64`.
pub open spec fn parse_i64(s: Seq<char>) -> Option<i64> {
    if s.len() > 0 && s[0] == '-' {
        let d = s.drop_first();
        if d.len() > 0 && all_digits(d) && digits_value(d) <= 9223372036854775808 {
            Some((-(digits_value(d) as int)) as i64)
        } else {
            None
        }
    } else {
        let d = unsigned_digits(s);
        if d.len() > 0 && all_digits(d) && digits_value(d) <= i64::MAX {
            Some(digits_value(d) as i64)
        } else {
            None
        }
    }
}

proof fn lemma_digits_prefix_le(d: Seq<char>, j: int)
    requires
        0 <= j <= d.len(),
        all_digits(d),
    ensures
        digits_value(d.take(j)) <= digits_value(d),
    decreases d.len(),
{
    if j < d.len() {
        assert(all_digits(d.drop_last()));
        assert(d.drop_last().take(j) =~= d.take(j));
        lemma_digits_prefix_le(d.drop_last(), j);
    } else {
        assert(d.take(j) =~= d);
    }
}

/// The value of `d`'s digits when it is at most `limit`.
fn digits_up_to(d: &[char], limit: u64) -> (out: Option<u64>)
    requires
        limit >= 9,
    ensures
        out matches Some(v) ==> d@.len() > 0 && all_digits(d@) && v == digits_value(d@)
            && v <= limit,
        out is None ==> !(d@.len() > 0 && all_digits(d@) && digits_value(d@) <= limit),
{
    if d.len() == 0 {
        return None;
    }
    let mut v: u64 = 0;
    let mut i: usize = 0;
    while i < d.len()
        invariant
            i <= d.len(),
            all_digits(d@.take(i as int)),
            v == digits_value(d@.take(i as int)),
            v <= limit,
            limit >= 9,
        decreases d.len() - i,
    {
        let c = d[i];
        assert(d@.take(i + 1).drop_last() =~= d@.take(i as int));
        if !('0' <= c && c <= '9') {
            assert(!is_ascii_digit(d@[i as int]));
            return None;
        }
        assert((c as u32) <= ('9' as u32) && (c as u32) >= ('0' as u32));
        let x = (c as u32 - '0' as u32) as u64;
        assert(x <= 9);
        if v > (limit - x) / 10 {
            proof {
                assert(v * 10 + x > limit) by (nonlinear_arith)
                    requires v > (limit - x) / 10, x <= 9, x <= limit;
                assert(digits_value(d@.take(i + 1)) == v * 10 + x);
                if all_digits(d@) {
                    lemma_digits_prefix_le(d@, i + 1);
                }
            }
            return None;
        }
        assert(v * 10 + x <= limit) by (nonlinear_arith)
            requires v <= (limit - x) / 10, x <= 9, x <= limit;
        v = v * 10 + x;
        i += 1;
        assert(all_digits(d@.take(i as int))) by {
            assert forall|k: int| 0 <= k < i implies is_ascii_digit(#[trigger] d@.take(i as int)[k]) by {
                if k < i - 1 {
                    assert(d@.take(i as int)[k] == d@.take(i - 1)[k]);
                }
            }
        }
    }
    assert(d@.take(d.len() as int) =~= d@);
    Some(v)
}


/// Parses `s` as `str::parse::<usize>` does.
pub fn chars_parse_usize(s: &[char]) -> (out: Option<usize>)
    ensures
        out == parse_usize(s@),
{
    let d = if s.len() > 0 && s[0] == '+' { chars_sub(s, 1, s.len()) } else { chars_sub(s, 0, s.len()) };
    assert(d@ == unsigned_digits(s@));
    match digits_up_to(&d, usize::MAX as u64) {
        Some(v) => Some(v as usize),
        None => None,
    }
}

/// `str::parse::<u64>`: the value of optionally `+`-prefixed decimal digits.
pub open spec fn parse_u64(s: Seq<char>) -> Option<u64> {
    let d = unsigned_digits(s);
    if d.len() > 0 && all_digits(d) && digits_value(d) <= u64::MAX {
        Some(digits_value(d) as u64)
    } else {
        None
    }
}

/// Parses `s` as `str::parse::<u64>` does.
pub fn chars_parse_u64(s: &[char]) -> (out: Option<u64>)
    ensures
        out == parse_u64(s@),
{
    let d = if s.len() > 0 && s[0] == '+' { chars_sub(s, 1, s.len()) } else { chars_sub(s, 0, s.len()) };
    assert(d@ == unsigned_digits(s@));
    digits_up_to(&d, u64::MAX)
}

/// Parses `s` as `str::parse::<i64>` does.
pub fn chars_parse_i64(s: &[char]) -> (out: Option<i64>)
    ensures
        out == parse_i64(s@),
{
    if s.len() > 0 && s[0] == '-' {
        let d = chars_sub(s, 1, s.len());
        assert(d@ =~= s@.drop_first());
        match digits_up_to(&d, 9223372036854775808u64) {
            Some(v) => {
                let r: i64 = if v == 9223372036854775808u64 { i64::MIN } else { -(v as i64) };
                Some(r)
            },
            None => None,
        }
    } else {
        let d = if s.len() > 0 && s[0] == '+' { chars_sub(s, 1, s.len()) } else { chars_sub(s, 0, s.len()) };
        assert(d@ == unsigned_digits(s@));
        match digits_up_to(&d, i64::MAX as u64) {
            Some(v) => Some(v as i64),
            None => None,
        }
    }
}


/// The pieces of `s` from `i` on between occurrences of `sep`, as `str::split` yields them.
pub open spec fn split_from(s: Seq<char>, sep: char, i: int) -> Seq<Seq<char>>
    decreases s.len() - i,
{
    match find_from(s, seq![sep], i) {
        Some(j) => if i <= j < s.len() {
            seq![s.subrange(i, j)] + split_from(s, sep, j + 1)
        } else {
            seq![]
        },
        None => seq![s.subrange(i, s.len() as int)],
    }
}

pub open spec fn split_on(s: Seq<char>, sep: char) -> Seq<Seq<char>> {
    split_from(s, sep, 0)
}

/// The pieces of `s` between occurrences of `sep`.
pub fn chars_split(s: &[char], sep: char) -> (out: Vec<Vec<char>>)
    ensures
        out@.map_values(|w: Vec<char>| w@) == split_on(s@, sep),
{
    let pat = vec![sep];
    let mut out: Vec<Vec<char>> = Vec::new();
    let mut i: usize = 0;
    loop
        invariant
            i <= s.len(),
            pat@ == seq![sep],
            out@.map_values(|w: Vec<char>| w@) + split_from(s@, sep, i as int) == split_on(s@, sep),
        decreases s.len() - i,
    {
        let ghost before = out@.map_values(|w: Vec<char>| w@);
        match chars_find_from(s, &pat, i) {
            Some(j) => {
                proof { lemma_find_from_bounds(s@, pat@, i as int); }
                let w = chars_sub(s, i, j);
                out.push(w);
                assert(out@.map_values(|w: Vec<char>| w@) =~= before.push(s@.subrange(i as int, j as int)));
                assert(before + split_from(s@, sep, i as int) =~= out@.map_values(|w: Vec<char>| w@) + split_from(s@, sep, j + 1));
                i = j + 1;
            },
            None => {
                let w = chars_sub(s, i, s.len());
                out.push(w);
                assert(out@.map_values(|w: Vec<char>| w@) =~= before.push(s@.subrange(i as int, s@.len() as int)));
                assert(split_from(s@, sep, i as int) == seq![s@.subrange(i as int, s@.len() as int)]);
                assert(out@.map_values(|w: Vec<char>| w@) =~= before + split_from(s@, sep, i as int));
                return out;
            },
        }
    }
}

// ---------------------------------------------------------------- byte offsets

/// The byte offset of character `k` of `s` in UTF-8: how many bytes the
/// characters before it take, as `str` positions count.
pub open spec fn byte_offset(s: Seq<char>, k: int) -> nat {
    utf8_len(s.take(k))
}

/// Whether byte offset `b` falls between characters of `s` (or at its end).
pub open spec fn is_boundary(s: Seq<char>, b: int) -> bool {
    exists|k: int| 0 <= k <= s.len() && #[trigger] byte_offset(s, k) == b
}

/// The character at byte offset `b`, for a boundary.
pub open spec fn char_at_byte(s: Seq<char>, b: int) -> int {
    choose|k: int| 0 <= k <= s.len() && #[trigger] byte_offset(s, k) == b
}

/// Later characters start at later bytes: every character takes a byte at least.
pub proof fn lemma_byte_offset_strict(s: Seq<char>, i: int, j: int)
    requires
        0 <= i < j <= s.len(),
    ensures
        byte_offset(s, i) < byte_offset(s, j),
    decreases j - i,
{
    assert(s.take(j).drop_last() =~= s.take(j - 1));
    if i < j - 1 {
        lemma_byte_offset_strict(s, i, j - 1);
    }
}

/// A boundary's character is the one there, and no other character starts there.
pub proof fn lemma_char_at_byte(s: Seq<char>, k: int)
    requires
        0 <= k <= s.len(),
    ensures
        is_boundary(s, byte_offset(s, k) as int),
        char_at_byte(s, byte_offset(s, k) as int) == k,
{
    assert(byte_offset(s, k) == byte_offset(s, k));
    let c = char_at_byte(s, byte_offset(s, k) as int);
    if c < k {
        lemma_byte_offset_strict(s, c, k);
    } else if c > k {
        lemma_byte_offset_strict(s, k, c);
    }
}

/// The byte offset of character `k`.
pub fn byte_offset_of(s: &[char], k: usize) -> (out: usize)
    requires
        k <= s@.len(),
        utf8_len(s@) <= usize::MAX,
    ensures
        out == byte_offset(s@, k as int),
{
    let mut total: usize = 0;
    let mut i: usize = 0;
    while i < k
        invariant
            i <= k <= s@.len(),
            utf8_len(s@) <= usize::MAX,
            total == byte_offset(s@, i as int),
        decreases k - i,
    {
        assert(s@.take(i as int + 1).drop_last() =~= s@.take(i as int));
        proof {
            lemma_utf8_len_prefix(s@, i as int + 1, s@.len() as int);
            assert(s@.take(s@.len() as int) =~= s@);
        }
        let u = s[i] as u32;
        let w: usize = if u < 0x80 { 1 } else if u < 0x800 { 2 } else if u < 0x10000 { 3 } else { 4 };
        total = total + w;
        i = i + 1;
    }
    total
}

/// The character at byte offset `b`, if `b` falls between characters.
pub fn char_index_at(s: &[char], b: usize) -> (out: Option<usize>)
    requires
        utf8_len(s@) <= usize::MAX,
    ensures
        out is Some <==> is_boundary(s@, b as int),
        out matches Some(k) ==> k == char_at_byte(s@, b as int) && k <= s@.len() && byte_offset(s@, k as int) == b,
{
    let mut total: usize = 0;
    let mut i: usize = 0;
    while i < s.len() && total < b
        invariant
            i <= s@.len(),
            utf8_len(s@) <= usize::MAX,
            total == byte_offset(s@, i as int),
            forall|k: int| 0 <= k < i ==> byte_offset(s@, k) < b,
        decreases s@.len() - i,
    {
        assert(s@.take(i as int + 1).drop_last() =~= s@.take(i as int));
        proof {
            lemma_utf8_len_prefix(s@, i as int + 1, s@.len() as int);
            assert(s@.take(s@.len() as int) =~= s@);
        }
        let u = s[i] as u32;
        let w: usize = if u < 0x80 { 1 } else if u < 0x800 { 2 } else if u < 0x10000 { 3 } else { 4 };
        total = total + w;
        i = i + 1;
    }
    if total == b {
        proof { lemma_char_at_byte(s@, i as int); }
        return Some(i);
    }
    proof {
        assert forall|k: int| 0 <= k <= s@.len() implies #[trigger] byte_offset(s@, k) != b by {
            if k < i {
            } else if k > i {
                lemma_byte_offset_strict(s@, i as int, k);
            }
        }
    }
    None
}

} // verus!
