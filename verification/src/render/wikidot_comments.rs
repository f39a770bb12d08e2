//! Wikidot removes `[!-- --]` comments after recognizing same-line `@@raw@@` spans.
//!
//! Cobalt templates rely on that order to hide rows whose value is `@@`:
//! `[!--{$aka}--]@@@@ ...row... [!-- --]` becomes `[!--@@--]@@@@ ...`, where the
//! first `--]` sits inside a raw span, so the comment runs to the closing `[!-- --]`.
//! FTML ends comments at the first `--]`, so comments are removed here first.
//! Positions that its public functions take and return are byte offsets, as `str`
//! counts them; the specs index characters.

use crate::search::utf8_len;
use crate::text::{byte_offset, byte_offset_of, char_at_byte, char_index_at, is_boundary, chars_find_from, chars_match_at, chars_sub, find_from, lemma_find_from_bounds, matches_at, push_sub, str_chars, string_from_chars};
use vstd::prelude::*;

verus! {

/// Opens a comment.
pub open spec fn comment_open() -> Seq<char> {
    seq!['[', '!', '-', '-']
}

pub fn comment_open_chars() -> (out: Vec<char>)
    ensures
        out@ == comment_open(),
{
    vec!['[', '!', '-', '-']
}

/// Closes a comment.
pub open spec fn comment_close() -> Seq<char> {
    seq!['-', '-', ']']
}

pub fn comment_close_chars() -> (out: Vec<char>)
    ensures
        out@ == comment_close(),
{
    vec!['-', '-', ']']
}

/// Opens and closes a raw span.
pub open spec fn raw_marker() -> Seq<char> {
    seq!['@', '@']
}

pub fn raw_marker_chars() -> (out: Vec<char>)
    ensures
        out@ == raw_marker(),
{
    vec!['@', '@']
}

/// Ends a line.
pub open spec fn newline() -> Seq<char> {
    seq!['\n']
}

pub fn newline_chars() -> (out: Vec<char>)
    ensures
        out@ == newline(),
{
    vec!['\n']
}

/// End of the raw span opening at `start`: just past its same-line closing `@@`,
/// or just past the opening marker when it is unpaired on its line.
pub open spec fn raw_end(s: Seq<char>, start: int) -> int {
    let after = start + 2;
    let line_end = match find_from(s, newline(), after) {
        Some(n) => n,
        None => s.len() as int,
    };
    match find_from(s.take(line_end), raw_marker(), after) {
        Some(close) => close + 2,
        None => after,
    }
}

/// End of a comment whose body starts at `i`, ignoring `--]` inside raw spans.
pub open spec fn comment_end_from(s: Seq<char>, i: int) -> Option<int>
    decreases s.len() - i,
{
    if i < 0 || i >= s.len() {
        None
    } else if matches_at(s, i, raw_marker()) {
        let e = raw_end(s, i);
        if i < e <= s.len() {
            comment_end_from(s, e)
        } else {
            None
        }
    } else if matches_at(s, i, comment_close()) {
        Some(i + 3)
    } else {
        comment_end_from(s, i + 1)
    }
}

/// The text from `i` on with comments removed; raw spans are copied whole.
pub open spec fn strip_from(s: Seq<char>, i: int) -> Seq<char>
    decreases s.len() - i,
{
    if i < 0 || i >= s.len() {
        seq![]
    } else if matches_at(s, i, raw_marker()) {
        let e = raw_end(s, i);
        if i < e <= s.len() {
            s.subrange(i, e) + strip_from(s, e)
        } else {
            seq![]
        }
    } else if matches_at(s, i, comment_open()) && comment_end_from(s, i + 4) is Some
        && i < comment_end_from(s, i + 4).unwrap() <= s.len() {
        strip_from(s, comment_end_from(s, i + 4).unwrap())
    } else {
        seq![s[i]] + strip_from(s, i + 1)
    }
}

pub proof fn lemma_raw_end_bounds(s: Seq<char>, start: int)
    requires
        0 <= start,
        start + 2 <= s.len(),
    ensures
        start + 2 <= raw_end(s, start) <= s.len(),
{
    let after = start + 2;
    lemma_find_from_bounds(s, newline(), after);
    let line_end = match find_from(s, newline(), after) {
        Some(n) => n,
        None => s.len() as int,
    };
    lemma_find_from_bounds(s.take(line_end), raw_marker(), after);
}

pub proof fn lemma_comment_end_bounds(s: Seq<char>, i: int)
    ensures
        comment_end_from(s, i) matches Some(e) ==> i < e <= s.len(),
    decreases s.len() - i,
{
    if i < 0 || i >= s.len() {
    } else if matches_at(s, i, raw_marker()) {
        let e = raw_end(s, i);
        if i < e <= s.len() {
            lemma_comment_end_bounds(s, e);
        }
    } else if matches_at(s, i, comment_close()) {
    } else {
        lemma_comment_end_bounds(s, i + 1);
    }
}

/// Text with no comment opener loses nothing.
pub proof fn lemma_strip_without_comments(s: Seq<char>, i: int)
    requires
        0 <= i <= s.len(),
        forall|j: int| i <= j ==> !#[trigger] matches_at(s, j, comment_open()),
    ensures
        strip_from(s, i) == s.subrange(i, s.len() as int),
    decreases s.len() - i,
{
    if i >= s.len() {
        assert(s.subrange(i, s.len() as int) =~= seq![]);
    } else if matches_at(s, i, raw_marker()) {
        lemma_raw_end_bounds(s, i);
        let e = raw_end(s, i);
        lemma_strip_without_comments(s, e);
        assert(s.subrange(i, e) + s.subrange(e, s.len() as int) =~= s.subrange(i, s.len() as int));
    } else {
        assert(!matches_at(s, i, comment_open()));
        lemma_strip_without_comments(s, i + 1);
        assert(seq![s[i]] + s.subrange(i + 1, s.len() as int) =~= s.subrange(i, s.len() as int));
    }
}

/// Nothing before `i` opens a comment or a raw span: the text up to `i` is
/// plain.
pub open spec fn plain_before(s: Seq<char>, i: int) -> bool {
    forall|j: int| 0 <= j < i ==> !#[trigger] matches_at(s, j, comment_open()) && !matches_at(s, j, raw_marker())
}

/// Plain text before `i` is kept as it is, and stripping goes on from `i`.
pub proof fn lemma_plain_prefix_kept(s: Seq<char>, i: int)
    requires
        0 <= i <= s.len(),
        plain_before(s, i),
    ensures
        strip_from(s, 0) == s.take(i) + strip_from(s, i),
    decreases i,
{
    if i == 0 {
        assert(s.take(0) =~= seq![]);
        assert(s.take(i) + strip_from(s, i) =~= strip_from(s, i));
    } else {
        let j = i - 1;
        assert(0 <= j < i);
        assert(!matches_at(s, j, comment_open()) && !matches_at(s, j, raw_marker()));
        lemma_plain_prefix_kept(s, j);
        assert(strip_from(s, i - 1) == seq![s[i - 1]] + strip_from(s, i));
        assert(s.take(i - 1) + (seq![s[i - 1]] + strip_from(s, i)) =~= s.take(i) + strip_from(s, i));
    }
}

/// A raw span that opens where the text before it is plain comes through
/// stripping whole, at the same place, whatever it holds: a comment opener
/// or closer inside it is text, not markup.
pub proof fn lemma_raw_span_kept(s: Seq<char>, i: int)
    requires
        0 <= i,
        plain_before(s, i),
        matches_at(s, i, raw_marker()),
    ensures
        raw_end(s, i) <= strip_from(s, 0).len(),
        strip_from(s, 0).subrange(i, raw_end(s, i)) == s.subrange(i, raw_end(s, i)),
{
    lemma_raw_end_bounds(s, i);
    lemma_plain_prefix_kept(s, i);
    let e = raw_end(s, i);
    assert(strip_from(s, i) == s.subrange(i, e) + strip_from(s, e));
    let out = strip_from(s, 0);
    assert(out == s.take(i) + (s.subrange(i, e) + strip_from(s, e)));
    assert(out.subrange(i, e) =~= s.subrange(i, e));
}

proof fn lemma_comment_body_scan(s: Seq<char>, j: int, c: int)
    requires
        0 <= j <= c,
        matches_at(s, c, comment_close()),
        forall|k: int| j <= k < c ==> !#[trigger] matches_at(s, k, raw_marker()) && !matches_at(s, k, comment_close()),
    ensures
        comment_end_from(s, j) == Some(c + 3),
    decreases c - j,
{
    if j < c {
        assert(!matches_at(s, j, raw_marker()) && !matches_at(s, j, comment_close()));
        lemma_comment_body_scan(s, j + 1, c);
    } else {
        assert(s[c + 0] == '-');
        assert(!matches_at(s, c, raw_marker()));
    }
}

/// Inside a comment a raw span is skipped whole: a closer inside it does not
/// end the comment, which ends at the first closer after the span.
pub proof fn lemma_raw_span_in_comment_skipped(s: Seq<char>, j: int, r: int)
    requires
        0 <= j <= r,
        matches_at(s, r, raw_marker()),
        forall|k: int| j <= k < r ==> !#[trigger] matches_at(s, k, raw_marker()) && !matches_at(s, k, comment_close()),
    ensures
        comment_end_from(s, j) == comment_end_from(s, raw_end(s, r)),
    decreases r - j,
{
    lemma_raw_end_bounds(s, r);
    if j < r {
        assert(!matches_at(s, j, raw_marker()) && !matches_at(s, j, comment_close()));
        lemma_raw_span_in_comment_skipped(s, j + 1, r);
    }
}

/// An opener that no closer follows, in text without raw markers, is left
/// as text: nothing is removed.
pub proof fn lemma_unterminated_comment_kept(s: Seq<char>, i: int)
    requires
        0 <= i <= s.len(),
        forall|k: int| 0 <= k ==> !#[trigger] matches_at(s, k, raw_marker()) && !matches_at(s, k, comment_close()),
    ensures
        strip_from(s, i) == s.subrange(i, s.len() as int),
    decreases s.len() - i,
{
    if i >= s.len() {
        assert(s.subrange(i, s.len() as int) =~= seq![]);
    } else {
        if matches_at(s, i, comment_open()) {
            lemma_no_closer_no_end(s, i + 4);
        }
        lemma_unterminated_comment_kept(s, i + 1);
        assert(seq![s[i]] + s.subrange(i + 1, s.len() as int) =~= s.subrange(i, s.len() as int));
    }
}

proof fn lemma_no_closer_no_end(s: Seq<char>, j: int)
    requires
        0 <= j,
        forall|k: int| 0 <= k ==> !#[trigger] matches_at(s, k, raw_marker()) && !matches_at(s, k, comment_close()),
    ensures
        comment_end_from(s, j) is None,
    decreases s.len() - j,
{
    if j < s.len() {
        assert(!matches_at(s, j, raw_marker()) && !matches_at(s, j, comment_close()));
        lemma_no_closer_no_end(s, j + 1);
    }
}

/// A comment that opens where the text before it is plain, and whose body
/// holds no raw marker, is removed up to its first closer: what stripping
/// gives is the text before it followed by what follows the closer.
pub proof fn lemma_comment_removed(s: Seq<char>, i: int, c: int)
    requires
        0 <= i,
        i + 4 <= c,
        plain_before(s, i),
        matches_at(s, i, comment_open()),
        matches_at(s, c, comment_close()),
        forall|k: int| i + 4 <= k < c ==> !#[trigger] matches_at(s, k, raw_marker()) && !matches_at(s, k, comment_close()),
    ensures
        strip_from(s, 0) == s.take(i) + strip_from(s, c + 3),
{
    lemma_plain_prefix_kept(s, i);
    assert forall|k: int| i + 4 <= k < c implies !#[trigger] matches_at(s, k, raw_marker()) && !matches_at(s, k, comment_close()) by {
    }
    lemma_comment_body_scan(s, i + 4, c);
    assert(s[i + 0] == '[');
    assert(!matches_at(s, i, raw_marker()));
}

fn raw_end_chars(s: &[char], start: usize) -> (out: usize)
    requires
        start + 2 <= s@.len(),
    ensures
        out == raw_end(s@, start as int),
{
    assert(s@.len() == s.len());
    let after = start + 2;
    let line_end = match chars_find_from(s, &newline_chars(), after) {
        Some(n) => n,
        None => s.len(),
    };
    proof { lemma_find_from_bounds(s@, newline(), after as int); }
    let line = chars_sub(s, 0, line_end);
    assert(line@ =~= s@.take(line_end as int));
    match chars_find_from(&line, &raw_marker_chars(), after) {
        Some(close) => {
            proof { lemma_find_from_bounds(line@, raw_marker(), after as int); }
            close + 2
        },
        None => after,
    }
}

fn comment_end_chars(s: &[char], start: usize) -> (out: Option<usize>)
    ensures
        out matches Some(e) ==> comment_end_from(s@, start as int) == Some(e as int),
        out is None ==> comment_end_from(s@, start as int) is None,
{
    let raw = raw_marker_chars();
    let close = comment_close_chars();
    let mut index = start;
    while index < s.len()
        invariant
            start <= index,
            raw@ == raw_marker(),
            close@ == comment_close(),
            comment_end_from(s@, start as int) == comment_end_from(s@, index as int),
        decreases s.len() - index,
    {
        if chars_match_at(s, index, &raw) {
            proof { lemma_raw_end_bounds(s@, index as int); }
            index = raw_end_chars(s, index);
        } else if chars_match_at(s, index, &close) {
            return Some(index + 3);
        } else {
            index += 1;
        }
    }
    None
}

/// End of the raw span opening at byte `start`, or just past an unpaired
/// marker, as a byte offset.
pub fn raw_span_end(source: &str, start: usize) -> (out: usize)
    requires
        utf8_len(source@) <= usize::MAX,
        is_boundary(source@, start as int),
        char_at_byte(source@, start as int) + 2 <= source@.len(),
    ensures
        out == byte_offset(source@, raw_end(source@, char_at_byte(source@, start as int))),
{
    let s = str_chars(source);
    match char_index_at(&s, start) {
        Some(k) => {
            let e = raw_end_chars(&s, k);
            proof { lemma_raw_end_bounds(s@, k as int); }
            byte_offset_of(&s, e)
        },
        None => 0,
    }
}

/// End of a comment whose body starts at byte `start`, ignoring `--]` inside
/// raw spans, as a byte offset; none past the end of the source.
pub fn comment_end(source: &str, start: usize) -> (out: Option<usize>)
    requires
        utf8_len(source@) <= usize::MAX,
        is_boundary(source@, start as int) || start >= utf8_len(source@),
    ensures
        is_boundary(source@, start as int) ==> match comment_end_from(source@, char_at_byte(source@, start as int)) {
            Some(e) => out == Some(byte_offset(source@, e) as usize),
            None => out is None,
        },
        !is_boundary(source@, start as int) ==> out is None,
{
    let s = str_chars(source);
    match char_index_at(&s, start) {
        Some(k) => match comment_end_chars(&s, k) {
            Some(e) => {
                proof { lemma_comment_end_bounds(s@, k as int); }
                Some(byte_offset_of(&s, e))
            },
            None => None,
        },
        None => None,
    }
}

/// Remove comments, skipping raw spans both outside and inside them.
/// Unterminated comments and unpaired raw markers are left as text.
pub fn strip_comments(source: String) -> (out: String)
    ensures
        out@ == strip_from(source@, 0),
        forall|i: int| #[trigger] plain_before(source@, i) && 0 <= i && matches_at(source@, i, raw_marker()) ==>
            raw_end(source@, i) <= out@.len() && out@.subrange(i, raw_end(source@, i)) == source@.subrange(i, raw_end(source@, i)),
{
    proof {
        assert forall|i: int| #[trigger] plain_before(source@, i) && 0 <= i && matches_at(source@, i, raw_marker()) implies
            raw_end(source@, i) <= strip_from(source@, 0).len() && strip_from(source@, 0).subrange(i, raw_end(source@, i)) == source@.subrange(i, raw_end(source@, i)) by {
            lemma_raw_span_kept(source@, i);
        }
    }
    let s = str_chars(source.as_str());
    let open = comment_open_chars();
    let raw = raw_marker_chars();
    proof { lemma_find_from_bounds(s@, open@, 0); }
    if chars_find_from(&s, &open, 0).is_none() {
        proof { lemma_strip_without_comments(s@, 0); }
        assert(s@.subrange(0, s@.len() as int) =~= s@);
        return source;
    }
    let mut out: Vec<char> = Vec::new();
    let mut index: usize = 0;
    while index < s.len()
        invariant
            index <= s.len(),
            raw@ == raw_marker(),
            open@ == comment_open(),
            out@ + strip_from(s@, index as int) == strip_from(s@, 0),
        decreases s.len() - index,
    {
        let ghost before = out@;
        if chars_match_at(&s, index, &raw) {
            proof { lemma_raw_end_bounds(s@, index as int); }
            let end = raw_end_chars(&s, index);
            push_sub(&mut out, &s, index, end);
            assert(out@ + strip_from(s@, end as int) =~= before + strip_from(s@, index as int));
            index = end;
        } else {
            let mut skipped = false;
            if chars_match_at(&s, index, &open) {
                proof { lemma_comment_end_bounds(s@, index + 4); }
                match comment_end_chars(&s, index + 4) {
                    Some(end) => {
                        index = end;
                        skipped = true;
                    },
                    None => {},
                }
            }
            if !skipped {
                out.push(s[index]);
                assert(out@ + strip_from(s@, index + 1) =~= before + strip_from(s@, index as int));
                index += 1;
            }
        }
    }
    assert(strip_from(s@, index as int) =~= seq![]);
    assert(out@ =~= out@ + strip_from(s@, index as int));
    string_from_chars(&out)
}

} // verus!
