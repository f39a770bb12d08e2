//! The editor's page and attachment lookups: which queries are served and
//! the `LIKE` pattern a page-name prefix becomes.

use crate::error::{Error, ErrorType, error_is};
use crate::text::{chars_trim, str_chars, string_from_chars, trim};
use vstd::prelude::*;

verus! {

/// Refuses a page lookup query out of bounds.
pub open spec fn invalid_query_message() -> Seq<char> {
    seq!['i', 'n', 'v', 'a', 'l', 'i', 'd', ' ', 'e', 'd', 'i', 't', 'o', 'r', ' ', 'p', 'a', 'g', 'e', ' ', 'q', 'u', 'e', 'r', 'y']
}

pub fn invalid_query_message_chars() -> (out: Vec<char>)
    ensures
        out@ == invalid_query_message(),
{
    vec!['i', 'n', 'v', 'a', 'l', 'i', 'd', ' ', 'e', 'd', 'i', 't', 'o', 'r', ' ', 'p', 'a', 'g', 'e', ' ', 'q', 'u', 'e', 'r', 'y']
}

#[derive(Debug)]
pub struct EditorAttachment {
    pub name: String,
}

#[derive(Debug)]
pub struct EditorPage {
    pub slug: String,
    pub title: String,
}

pub const SUGGESTION_LIMIT: usize = 20;

/// Characters that `LIKE` treats specially.
pub open spec fn like_special(c: char) -> bool {
    c == '%' || c == '_' || c == '\\'
}

/// `s` with a backslash before each `%`, `_` and `\`.
pub open spec fn escape_like_spec(s: Seq<char>) -> Seq<char>
    decreases s.len(),
{
    if s.len() == 0 {
        seq![]
    } else {
        let rest = escape_like_spec(s.drop_last());
        if like_special(s.last()) { rest + seq!['\\', s.last()] } else { rest.push(s.last()) }
    }
}

/// `query` as literal text inside a `LIKE` pattern.
pub fn escape_like(query: &str) -> (out: String)
    ensures
        out@ == escape_like_spec(query@),
{
    let q = str_chars(query);
    let mut out: Vec<char> = Vec::new();
    let mut i: usize = 0;
    while i < q.len()
        invariant
            i <= q@.len(),
            out@ == escape_like_spec(q@.take(i as int)),
        decreases q@.len() - i,
    {
        assert(q@.take(i as int + 1).drop_last() =~= q@.take(i as int));
        let c = q[i];
        let ghost before = out@;
        if c == '%' || c == '_' || c == '\\' {
            out.push('\\');
        }
        out.push(c);
        assert(out@ =~= escape_like_spec(q@.take(i as int + 1)));
        i = i + 1;
    }
    assert(q@.take(q@.len() as int) =~= q@);
    string_from_chars(&out)
}

/// `s` with every space replaced by a hyphen.
pub open spec fn hyphenate(s: Seq<char>) -> Seq<char> {
    s.map_values(|c: char| if c == ' ' { '-' } else { c })
}

/// A lookup query: at least 2 characters once trimmed and at most 200 bytes.
pub open spec fn editor_query_valid(query: Seq<char>) -> bool {
    crate::search::utf8_len(trim(query)) >= 2 && crate::search::utf8_len(query) <= 200
}

/// The `LIKE` pattern for pages whose names start with the query, spaces
/// read as hyphens.
pub fn editor_page_pattern(query: &str) -> (out: Result<String, Error>)
    ensures
        out is Ok <==> editor_query_valid(query@),
        out matches Ok(p) ==> p@ == escape_like_spec(hyphenate(query@)) + seq!['%'],
        out matches Err(e) ==> error_is(e, ErrorType::BadRequest, invalid_query_message()),
{
    let q = str_chars(query);
    let t = chars_trim(&q);
    if crate::search::utf8_len_below(&t, 2) || !crate::search::utf8_len_within(&q, 200) {
        return Err(Error::new(string_from_chars(&invalid_query_message_chars()), ErrorType::BadRequest));
    }
    let mut h: Vec<char> = Vec::new();
    let mut i: usize = 0;
    while i < q.len()
        invariant
            i <= q@.len(),
            h@ == hyphenate(q@.take(i as int)),
        decreases q@.len() - i,
    {
        h.push(if q[i] == ' ' { '-' } else { q[i] });
        assert(h@ =~= hyphenate(q@.take(i as int + 1)));
        i = i + 1;
    }
    assert(q@.take(q@.len() as int) =~= q@);
    let mut out = str_chars(escape_like(string_from_chars(&h).as_str()).as_str());
    out.push('%');
    Ok(string_from_chars(&out))
}

/// The MIME type prefix of images, which alone the editor lists of a page's
/// attachments.
pub open spec fn image_prefix() -> Seq<char> {
    seq!['i', 'm', 'a', 'g', 'e', '/']
}

/// Whether an attachment of this MIME type is an image the editor lists.
pub fn is_image(mime: &str) -> (out: bool)
    ensures
        out == (mime@.len() >= 6 && mime@.subrange(0, 6) == image_prefix()),
{
    let m = str_chars(mime);
    if m.len() < 6 {
        return false;
    }
    let r = m[0] == 'i' && m[1] == 'm' && m[2] == 'a' && m[3] == 'g' && m[4] == 'e' && m[5] == '/';
    assert(r == (m@.subrange(0, 6) =~= image_prefix()));
    r
}

pub const CANDIDATE_BATCH: usize = 40;

/// What a candidate page suggests once the user may view it: its slug under
/// its current revision's title, provided the revision found (site, page,
/// title) is that page's own on this site.
pub fn suggestion(site_id: i64, page_id: i64, slug: String, revision: Option<(i64, i64, String)>) -> (out: Option<EditorPage>)
    ensures
        match revision {
            Some((s, p, t)) => if s == site_id && p == page_id {
                out matches Some(e) && e.slug@ == slug@ && e.title@ == t@
            } else {
                out is None
            },
            None => out is None,
        },
{
    match revision {
        Some((s, p, t)) => {
            if s == site_id && p == page_id {
                Some(EditorPage { slug, title: t })
            } else {
                None
            }
        },
        None => None,
    }
}

/// The suggestions of a page lookup so far, and the last candidate looked
/// at, after which the next batch of candidates starts.
#[derive(Debug)]
pub struct Suggestions {
    pub pages: Vec<EditorPage>,
    pub cursor: Option<(String, i64)>,
}

impl Suggestions {
    /// Nothing looked at yet.
    pub fn new() -> (out: Suggestions)
        ensures
            out.pages@.len() == 0,
            out.cursor is None,
    {
        Suggestions { pages: Vec::new(), cursor: None }
    }

    /// A candidate looked at: the cursor moves past it, and its suggestion,
    /// if the user may see it, is kept. True once 20 are kept, which ends the
    /// lookup; so a lookup never suggests more than 20 pages.
    pub fn see(&mut self, slug: String, page_id: i64, visible: Option<EditorPage>) -> (full: bool)
        requires
            old(self).pages@.len() < SUGGESTION_LIMIT,
        ensures
            final(self).cursor matches Some((s, id)) && s@ == slug@ && id == page_id,
            final(self).pages@ == match visible { Some(p) => old(self).pages@.push(p), None => old(self).pages@ },
            final(self).pages@.len() <= SUGGESTION_LIMIT,
            full == (final(self).pages@.len() == SUGGESTION_LIMIT),
    {
        self.cursor = Some((slug, page_id));
        match visible {
            Some(p) => self.pages.push(p),
            None => {},
        }
        self.pages.len() == SUGGESTION_LIMIT
    }

    /// Whether the lookup ends after a batch of `count` candidates: a batch
    /// shorter than 40 was the last one.
    pub fn last_batch(count: usize) -> (out: bool)
        ensures
            out == (count < CANDIDATE_BATCH),
    {
        count < CANDIDATE_BATCH
    }
}

} // verus!
