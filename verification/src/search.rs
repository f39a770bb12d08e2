//! Page search: which requests are served, what a hit shows of an indexed
//! page, and the plain text that is indexed of a page's compiled HTML.

use crate::error::{Error, ErrorType, error_is};
use scraper::{Html, Node};
use crate::email::random_jitter;
use vstd::arithmetic::power2::{lemma2_to64, pow2};
use crate::text::{push_decimal_i64, signed_decimal, chars_eq, chars_find_from, chars_parse_u64, chars_sub, chars_trim, chars_words, find_from, parse_u64, push_all, str_chars, string_from_chars, trim, words};
use vstd::prelude::*;

verus! {

/// Refuses a search outside the allowed bounds.
pub open spec fn invalid_request_message() -> Seq<char> {
    seq!['i', 'n', 'v', 'a', 'l', 'i', 'd', ' ', 's', 'e', 'a', 'r', 'c', 'h', ' ', 'q', 'u', 'e', 'r', 'y', ',', ' ', 'o', 'f', 'f', 's', 'e', 't', ' ', 'o', 'r', ' ', 'l', 'i', 'm', 'i', 't']
}

pub fn invalid_request_message_chars() -> (out: Vec<char>)
    ensures
        out@ == invalid_request_message(),
{
    vec!['i', 'n', 'v', 'a', 'l', 'i', 'd', ' ', 's', 'e', 'a', 'r', 'c', 'h', ' ', 'q', 'u', 'e', 'r', 'y', ',', ' ', 'o', 'f', 'f', 's', 'e', 't', ' ', 'o', 'r', ' ', 'l', 'i', 'm', 'i', 't']
}

/// An element whose text is never shown.
pub open spec fn script_tag() -> Seq<char> {
    seq!['s', 'c', 'r', 'i', 'p', 't']
}

pub fn script_tag_chars() -> (out: Vec<char>)
    ensures
        out@ == script_tag(),
{
    vec!['s', 'c', 'r', 'i', 'p', 't']
}

/// An element whose text is never shown.
pub open spec fn style_tag() -> Seq<char> {
    seq!['s', 't', 'y', 'l', 'e']
}

pub fn style_tag_chars() -> (out: Vec<char>)
    ensures
        out@ == style_tag(),
{
    vec!['s', 't', 'y', 'l', 'e']
}

/// An element whose text is never shown.
pub open spec fn template_tag() -> Seq<char> {
    seq!['t', 'e', 'm', 'p', 'l', 'a', 't', 'e']
}

pub fn template_tag_chars() -> (out: Vec<char>)
    ensures
        out@ == template_tag(),
{
    vec!['t', 'e', 'm', 'p', 'l', 'a', 't', 'e']
}

/// An element whose text is never shown.
pub open spec fn noscript_tag() -> Seq<char> {
    seq!['n', 'o', 's', 'c', 'r', 'i', 'p', 't']
}

pub fn noscript_tag_chars() -> (out: Vec<char>)
    ensures
        out@ == noscript_tag(),
{
    vec!['n', 'o', 's', 'c', 'r', 'i', 'p', 't']
}

/// An element whose text is never shown.
pub open spec fn svg_tag() -> Seq<char> {
    seq!['s', 'v', 'g']
}

pub fn svg_tag_chars() -> (out: Vec<char>)
    ensures
        out@ == svg_tag(),
{
    vec!['s', 'v', 'g']
}

/// A class that hides an element.
pub open spec fn hidden_class() -> Seq<char> {
    seq!['w', 'j', '-', 'h', 'i', 'd', 'd', 'e', 'n']
}

pub fn hidden_class_chars() -> (out: Vec<char>)
    ensures
        out@ == hidden_class(),
{
    vec!['w', 'j', '-', 'h', 'i', 'd', 'd', 'e', 'n']
}

/// A class that hides an element.
pub open spec fn invisible_class() -> Seq<char> {
    seq!['w', 'j', '-', 'i', 'n', 'v', 'i', 's', 'i', 'b', 'l', 'e']
}

pub fn invisible_class_chars() -> (out: Vec<char>)
    ensures
        out@ == invisible_class(),
{
    vec!['w', 'j', '-', 'i', 'n', 'v', 'i', 's', 'i', 'b', 'l', 'e']
}

/// The `aria-hidden` value that hides an element.
pub open spec fn true_value() -> Seq<char> {
    seq!['t', 'r', 'u', 'e']
}

pub fn true_value_chars() -> (out: Vec<char>)
    ensures
        out@ == true_value(),
{
    vec!['t', 'r', 'u', 'e']
}

/// The style that hides an element, spaces removed.
pub open spec fn display_none() -> Seq<char> {
    seq!['d', 'i', 's', 'p', 'l', 'a', 'y', ':', 'n', 'o', 'n', 'e']
}

pub fn display_none_chars() -> (out: Vec<char>)
    ensures
        out@ == display_none(),
{
    vec!['d', 'i', 's', 'p', 'l', 'a', 'y', ':', 'n', 'o', 'n', 'e']
}


// ---------------------------------------------------------------- requests

pub const MAX_QUERY_BYTES: usize = 200;
pub const MAX_LIMIT: usize = 20;
pub const MAX_OFFSET: usize = 500;

#[derive(Debug)]
pub struct SearchRequest {
    pub query: String,
    pub offset: usize,
    pub limit: usize,
}

/// Whether a search may run: a query that is not blank and at most 200
/// bytes, a limit of 1 to 20 and an offset of at most 500.
pub open spec fn search_request_valid(query: Seq<char>, offset: usize, limit: usize) -> bool {
    trim(query).len() > 0 && utf8_len(query) <= MAX_QUERY_BYTES
        && 0 < limit <= MAX_LIMIT && offset <= MAX_OFFSET
}

/// How many bytes a character takes in UTF-8.
pub open spec fn utf8_width(c: char) -> nat {
    if (c as u32) < 0x80 { 1 } else if (c as u32) < 0x800 { 2 } else if (c as u32) < 0x10000 { 3 } else { 4 }
}

/// How many bytes `s` takes in UTF-8, as `str::len` counts.
pub open spec fn utf8_len(s: Seq<char>) -> nat
    decreases s.len(),
{
    if s.len() == 0 { 0 } else { utf8_len(s.drop_last()) + utf8_width(s.last()) }
}

pub proof fn lemma_utf8_len_prefix(s: Seq<char>, i: int, j: int)
    requires
        0 <= i <= j <= s.len(),
    ensures
        utf8_len(s.take(i)) <= utf8_len(s.take(j)),
    decreases j - i,
{
    if i < j {
        lemma_utf8_len_prefix(s, i, j - 1);
        assert(s.take(j).drop_last() =~= s.take(j - 1));
    }
}

/// Whether `s` takes at most `limit` bytes in UTF-8.
pub fn utf8_len_within(s: &[char], limit: usize) -> (out: bool)
    requires
        limit <= usize::MAX - 4,
    ensures
        out == (utf8_len(s@) <= limit),
{
    let mut total: usize = 0;
    let mut i: usize = 0;
    while i < s.len()
        invariant
            i <= s@.len(),
            limit <= usize::MAX - 4,
            total == utf8_len(s@.take(i as int)),
            total <= limit,
        decreases s@.len() - i,
    {
        assert(s@.take(i as int + 1).drop_last() =~= s@.take(i as int));
        let u = s[i] as u32;
        let w: usize = if u < 0x80 { 1 } else if u < 0x800 { 2 } else if u < 0x10000 { 3 } else { 4 };
        total = total + w;
        i = i + 1;
        if total > limit {
            proof {
                lemma_utf8_len_prefix(s@, i as int, s@.len() as int);
                assert(s@.take(s@.len() as int) =~= s@);
            }
            return false;
        }
    }
    assert(s@.take(s@.len() as int) =~= s@);
    true
}

/// Whether `s` takes fewer than `n` bytes in UTF-8.
pub fn utf8_len_below(s: &[char], n: usize) -> (out: bool)
    requires
        1 <= n <= usize::MAX - 4,
    ensures
        out == (utf8_len(s@) < n),
{
    utf8_len_within(s, n - 1)
}

impl SearchRequest {
    /// Refuses a request outside the bounds a search is served within.
    pub fn validate(&self) -> (out: Result<(), Error>)
        ensures
            out is Ok <==> search_request_valid(self.query@, self.offset, self.limit),
            out matches Err(e) ==> error_is(e, ErrorType::BadRequest, invalid_request_message()),
    {
        let q = str_chars(self.query.as_str());
        if chars_trim(&q).len() == 0 || !utf8_len_within(&q, MAX_QUERY_BYTES)
            || self.limit == 0 || self.limit > MAX_LIMIT || self.offset > MAX_OFFSET {
            return Err(Error::new(string_from_chars(&invalid_request_message_chars()), ErrorType::BadRequest));
        }
        Ok(())
    }
}

/// Reports an indexed page without a current revision.
pub open spec fn missing_revision_message() -> Seq<char> {
    seq!['s', 'e', 'a', 'r', 'c', 'h', ' ', 'p', 'a', 'g', 'e', ' ', 'm', 'i', 's', 's', 'i', 'n', 'g', ' ', 'c', 'u', 'r', 'r', 'e', 'n', 't', ' ', 'r', 'e', 'v', 'i', 's', 'i', 'o', 'n']
}

pub fn missing_revision_message_chars() -> (out: Vec<char>)
    ensures
        out@ == missing_revision_message(),
{
    vec!['s', 'e', 'a', 'r', 'c', 'h', ' ', 'p', 'a', 'g', 'e', ' ', 'm', 'i', 's', 's', 'i', 'n', 'g', ' ', 'c', 'u', 'r', 'r', 'e', 'n', 't', ' ', 'r', 'e', 'v', 'i', 's', 'i', 'o', 'n']
}

/// Reports a current revision that is not the page's own.
pub open spec fn foreign_revision_message() -> Seq<char> {
    seq!['s', 'e', 'a', 'r', 'c', 'h', ' ', 'r', 'e', 'v', 'i', 's', 'i', 'o', 'n', ' ', 'b', 'e', 'l', 'o', 'n', 'g', 's', ' ', 't', 'o', ' ', 'a', 'n', 'o', 't', 'h', 'e', 'r', ' ', 'p', 'a', 'g', 'e']
}

pub fn foreign_revision_message_chars() -> (out: Vec<char>)
    ensures
        out@ == foreign_revision_message(),
{
    vec!['s', 'e', 'a', 'r', 'c', 'h', ' ', 'r', 'e', 'v', 'i', 's', 'i', 'o', 'n', ' ', 'b', 'e', 'l', 'o', 'n', 'g', 's', ' ', 't', 'o', ' ', 'a', 'n', 'o', 't', 'h', 'e', 'r', ' ', 'p', 'a', 'g', 'e']
}

/// The revision whose text a pending page is indexed with: none for a page
/// that is gone or deleted, whose document is removed instead; else the
/// page's current revision, which a live page always has.
pub fn indexed_revision(page: Option<(bool, Option<i64>)>) -> (out: Result<Option<i64>, Error>)
    ensures
        match page {
            None => out == Ok::<Option<i64>, Error>(None),
            Some((true, _)) => out == Ok::<Option<i64>, Error>(None),
            Some((false, Some(r))) => out == Ok::<Option<i64>, Error>(Some(r)),
            Some((false, None)) => out matches Err(e) && error_is(e, ErrorType::Page, missing_revision_message()),
        },
{
    match page {
        None => Ok(None),
        Some((true, _)) => Ok(None),
        Some((false, Some(r))) => Ok(Some(r)),
        Some((false, None)) => Err(Error::new(string_from_chars(&missing_revision_message_chars()), ErrorType::Page)),
    }
}

/// A current revision is indexed only as its own page's, on that page's site.
pub fn check_revision_owner(page_id: i64, site_id: i64, revision_page_id: i64, revision_site_id: i64) -> (out: Result<(), Error>)
    ensures
        out is Ok <==> revision_page_id == page_id && revision_site_id == site_id,
        out matches Err(e) ==> error_is(e, ErrorType::Page, foreign_revision_message()),
{
    if revision_page_id != page_id || revision_site_id != site_id {
        return Err(Error::new(string_from_chars(&foreign_revision_message_chars()), ErrorType::Page));
    }
    Ok(())
}

#[derive(Debug)]
pub struct SearchDocument {
    pub page_id: i64,
    pub site_id: i64,
    pub revision_id: i64,
    pub title: String,
    pub slug: String,
    pub tags: Vec<String>,
    pub body: String,
}

impl SearchDocument {
    /// Whether a candidate is of the searched site: the index is asked for
    /// that site's pages only, and a candidate of another is passed over.
    pub fn is_on_site(&self, site_id: i64) -> (out: bool)
        ensures
            out == (self.site_id == site_id),
    {
        self.site_id == site_id
    }
}

#[derive(Debug, PartialEq)]
pub struct SearchHit {
    pub page_id: i64,
    pub title: String,
    pub slug: String,
    pub tags: Vec<String>,
    pub snippet: String,
}

#[derive(Debug, PartialEq)]
pub struct SearchPage {
    pub hits: Vec<SearchHit>,
    pub has_more: bool,
}

pub const SNIPPET_CHARS: usize = 200;

pub open spec fn strings_view(v: Seq<String>) -> Seq<Seq<char>> {
    v.map_values(|s: String| s@)
}

fn copy_string(s: &String) -> (out: String)
    ensures
        out@ == s@,
{
    string_from_chars(&str_chars(s.as_str()))
}

fn copy_strings(v: &Vec<String>) -> (out: Vec<String>)
    ensures
        strings_view(out@) == strings_view(v@),
{
    let mut out: Vec<String> = Vec::new();
    let mut i: usize = 0;
    while i < v.len()
        invariant
            i <= v@.len(),
            strings_view(out@) == strings_view(v@.take(i as int)),
        decreases v@.len() - i,
    {
        let ghost before = strings_view(out@);
        out.push(copy_string(&v[i]));
        assert(strings_view(out@) =~= before.push(v@[i as int]@));
        assert(strings_view(v@.take(i as int + 1)) =~= strings_view(v@.take(i as int)).push(v@[i as int]@));
        i = i + 1;
    }
    assert(v@.take(v@.len() as int) =~= v@);
    out
}

/// A hit shows an indexed page as indexed, with the first 200 characters
/// of its text.
pub open spec fn hit_of(hit: SearchHit, doc: SearchDocument) -> bool {
    &&& hit.page_id == doc.page_id
    &&& hit.title@ == doc.title@
    &&& hit.slug@ == doc.slug@
    &&& strings_view(hit.tags@) == strings_view(doc.tags@)
    &&& hit.snippet@ == doc.body@.take(min_len(doc.body@.len(), SNIPPET_CHARS as nat) as int)
}

pub open spec fn min_len(a: nat, b: nat) -> nat {
    if a <= b { a } else { b }
}

impl SearchHit {
    /// The hit for an indexed page.
    pub fn from_document(doc: &SearchDocument) -> (out: SearchHit)
        ensures
            hit_of(out, *doc),
    {
        let body = str_chars(doc.body.as_str());
        let n = if body.len() < SNIPPET_CHARS { body.len() } else { SNIPPET_CHARS };
        let snippet = chars_sub(&body, 0, n);
        assert(body@.subrange(0, n as int) =~= body@.take(n as int));
        SearchHit {
            page_id: doc.page_id,
            title: copy_string(&doc.title),
            slug: copy_string(&doc.slug),
            tags: copy_strings(&doc.tags),
            snippet: string_from_chars(&snippet),
        }
    }

    /// The hit for an indexed page, if what was indexed is the text of the
    /// page as it is now: a stale index entry shows nothing.
    pub fn from_current_document(doc: &SearchDocument, current_html: &str) -> (out: Option<SearchHit>)
        ensures
            out is Some <==> doc.body@ == plain_text_spec(html_events(current_html@)),
            out matches Some(h) ==> hit_of(h, *doc),
    {
        let current = plain_body(current_html);
        if chars_eq(&str_chars(doc.body.as_str()), &str_chars(current.as_str())) {
            Some(SearchHit::from_document(doc))
        } else {
            None
        }
    }
}

// ---------------------------------------------------------------- plain text

/// A step through an HTML tree: entering an element, with what decides
/// whether it is shown, a text node, or leaving an element.
/// Opens the index filter that keeps a search to one site.
pub open spec fn site_filter_prefix() -> Seq<char> {
    seq!['s', 'i', 't', 'e', '_', 'i', 'd', ' ', '=', ' ']
}

pub fn site_filter_prefix_chars() -> (out: Vec<char>)
    ensures
        out@ == site_filter_prefix(),
{
    vec!['s', 'i', 't', 'e', '_', 'i', 'd', ' ', '=', ' ']
}

/// The body of a search request to the index: the query, the filter that
/// keeps it to one site, and the window of candidates asked for.
#[derive(Debug)]
pub struct IndexQuery {
    pub q: String,
    pub filter: String,
    pub offset: usize,
    pub limit: usize,
}

/// The index request for a batch of `size` candidates from `offset`: every
/// request a search makes filters on the searched site.
pub fn index_query(site_id: i64, request: &SearchRequest, offset: usize, size: usize) -> (out: IndexQuery)
    ensures
        out.q@ == request.query@,
        out.filter@ == site_filter_prefix() + signed_decimal(site_id as int),
        out.offset == offset,
        out.limit == size,
{
    let mut filter = site_filter_prefix_chars();
    push_decimal_i64(&mut filter, site_id);
    IndexQuery {
        q: copy_string(&request.query),
        filter: string_from_chars(&filter),
        offset,
        limit: size,
    }
}

/// Whether a candidate may be shown to the searching user, given the page
/// it names as it is now (its site, whether it is deleted, its latest
/// revision and slug), the user's permission to view it, and the indexed
/// revision as stored (its page, site, title and tags): the page is live on
/// the searched site, the indexed revision is its latest and is that page's
/// own, the user may view it, and the indexed text is the page's current
/// text.
pub open spec fn shows_candidate(doc: SearchDocument, site_id: i64, page: Option<(i64, bool, Option<i64>, String)>, allowed: bool,
    revision: Option<(i64, i64, String, Vec<String>)>, current_html: Seq<char>) -> bool {
    &&& page matches Some((page_site, deleted, latest, _)) && !deleted && page_site == site_id && latest == Some(doc.revision_id)
    &&& allowed
    &&& revision matches Some((rev_page, rev_site, _, _)) && rev_page == doc.page_id && rev_site == site_id
    &&& doc.body@ == plain_text_spec(html_events(current_html))
}

/// The hit a candidate shows, if any: its title and tags from the indexed
/// revision, its slug from the page, and the first 200 characters of the
/// indexed text. Raw index data never reaches the user otherwise.
pub fn visible_hit(doc: &SearchDocument, site_id: i64, page: Option<(i64, bool, Option<i64>, String)>, allowed: bool,
    revision: Option<(i64, i64, String, Vec<String>)>, current_html: &str) -> (out: Option<SearchHit>)
    ensures
        out is Some <==> shows_candidate(*doc, site_id, page, allowed, revision, current_html@),
        out matches Some(h) ==> h.page_id == doc.page_id
            && h.title@ == revision.unwrap().2@
            && strings_view(h.tags@) == strings_view(revision.unwrap().3@)
            && h.slug@ == page.unwrap().3@
            && h.snippet@ == doc.body@.take(min_len(doc.body@.len(), SNIPPET_CHARS as nat) as int),
{
    let (page_site, deleted, latest, slug) = match page {
        Some(p) => p,
        None => return None,
    };
    if deleted || page_site != site_id || latest != Some(doc.revision_id) || !allowed {
        return None;
    }
    let (rev_page, rev_site, title, tags) = match revision {
        Some(r) => r,
        None => return None,
    };
    if rev_page != doc.page_id || rev_site != site_id {
        return None;
    }
    match SearchHit::from_current_document(doc, current_html) {
        None => None,
        Some(hit) => Some(SearchHit { page_id: hit.page_id, title, slug, tags, snippet: hit.snippet }),
    }
}

#[derive(Debug)]
pub enum HtmlEvent {
    Open { name: String, hidden: bool, class: Option<String>, aria_hidden: Option<String>, style: Option<String> },
    Text(String),
    Close,
}

/// The steps through the tree that `scraper` parses of an HTML fragment,
/// from its root element on.
pub uninterp spec fn html_events(html: Seq<char>) -> Seq<HtmlEvent>;

/// `Html::parse_fragment` and a traversal of its root element: each element
/// entered with its name and its `hidden`, `class`, `aria-hidden` and
/// `style` attributes, each text node, and each element left. The steps are
/// named; nothing more of them is stated.
#[verifier::external_body]
fn parse_html_events(html: &str) -> (out: Vec<HtmlEvent>)
    ensures
        out@ == html_events(html@),
{
    let document = Html::parse_fragment(html);
    document.root_element().traverse().filter_map(|edge| match edge {
        ego_tree::iter::Edge::Open(node) => match node.value() {
            Node::Element(e) => Some(HtmlEvent::Open {
                name: e.name().to_string(), hidden: e.attr("hidden").is_some(),
                class: e.attr("class").map(str::to_string), aria_hidden: e.attr("aria-hidden").map(str::to_string),
                style: e.attr("style").map(str::to_string),
            }),
            Node::Text(t) => Some(HtmlEvent::Text(t.to_string())),
            _ => None,
        },
        ego_tree::iter::Edge::Close(node) => node.value().as_element().map(|_| HtmlEvent::Close),
    }).collect()
}

/// `s` without its ASCII spaces.
pub open spec fn without_spaces(s: Seq<char>) -> Seq<char>
    decreases s.len(),
{
    if s.len() == 0 {
        s
    } else if s.last() == ' ' {
        without_spaces(s.drop_last())
    } else {
        without_spaces(s.drop_last()).push(s.last())
    }
}

pub open spec fn opt_view(v: Option<String>) -> Option<Seq<char>> {
    match v {
        Some(s) => Some(s@),
        None => None,
    }
}

/// Whether an element is not displayed: scripts, styles, templates,
/// noscript and SVG, and elements marked hidden by attribute, by the
/// `wj-hidden` or `wj-invisible` class, by `aria-hidden="true"` or by
/// `display:none`.
pub open spec fn element_hidden(name: Seq<char>, hidden: bool, class: Option<Seq<char>>, aria_hidden: Option<Seq<char>>, style: Option<Seq<char>>) -> bool {
    ||| name == script_tag() || name == style_tag() || name == template_tag() || name == noscript_tag() || name == svg_tag()
    ||| hidden
    ||| (class matches Some(c) && (words(c).contains(hidden_class()) || words(c).contains(invisible_class())))
    ||| aria_hidden == Some(true_value())
    ||| (style matches Some(s) && find_from(without_spaces(s), display_none(), 0) is Some)
}

/// The walk so far: the text gathered, how deep it is, and the depth of the
/// hidden element being skipped, if any.
pub ghost struct TextWalk {
    pub text: Seq<char>,
    pub depth: nat,
    pub skip: Option<nat>,
}

pub open spec fn walk_step(w: TextWalk, e: HtmlEvent) -> TextWalk {
    match e {
        HtmlEvent::Open { name, hidden, class, aria_hidden, style } => {
            if w.skip is None && w.depth > 0 && element_hidden(name@, hidden, opt_view(class), opt_view(aria_hidden), opt_view(style)) {
                TextWalk { depth: w.depth + 1, skip: Some(w.depth), ..w }
            } else {
                TextWalk { depth: w.depth + 1, ..w }
            }
        },
        HtmlEvent::Text(t) => if w.skip is None { TextWalk { text: w.text + t@ + seq![' '], ..w } } else { w },
        HtmlEvent::Close => {
            let d = if w.depth > 0 { (w.depth - 1) as nat } else { 0 };
            if w.skip == Some(d) { TextWalk { depth: d, skip: None, ..w } } else { TextWalk { depth: d, ..w } }
        },
    }
}

pub open spec fn walk(events: Seq<HtmlEvent>) -> TextWalk
    decreases events.len(),
{
    if events.len() == 0 {
        TextWalk { text: seq![], depth: 0, skip: None }
    } else {
        walk_step(walk(events.drop_last()), events.last())
    }
}

/// The walk from state `w` on through `events`.
pub open spec fn walk_from(w: TextWalk, events: Seq<HtmlEvent>) -> TextWalk
    decreases events.len(),
{
    if events.len() == 0 {
        w
    } else {
        walk_step(walk_from(w, events.drop_last()), events.last())
    }
}

/// Elements opened minus elements closed in `events`.
pub open spec fn net_depth(events: Seq<HtmlEvent>) -> int
    decreases events.len(),
{
    if events.len() == 0 {
        0
    } else {
        net_depth(events.drop_last()) + match events.last() {
            HtmlEvent::Open { .. } => 1int,
            HtmlEvent::Text(_) => 0int,
            HtmlEvent::Close => -1int,
        }
    }
}

/// `events` are whole subtrees: no prefix closes more elements than it
/// opened, and all opened are closed.
pub open spec fn balanced(events: Seq<HtmlEvent>) -> bool {
    &&& forall|k: int| 0 <= k <= events.len() ==> net_depth(#[trigger] events.take(k)) >= 0
    &&& net_depth(events) == 0
}

pub proof fn lemma_walk_concat(a: Seq<HtmlEvent>, b: Seq<HtmlEvent>)
    ensures
        walk(a + b) == walk_from(walk(a), b),
    decreases b.len(),
{
    if b.len() == 0 {
        assert(a + b =~= a);
    } else {
        lemma_walk_concat(a, b.drop_last());
        assert((a + b).drop_last() =~= a + b.drop_last());
        assert((a + b).last() == b.last());
    }
}

/// Inside an element being skipped nothing is gathered and the skip holds
/// while the walk stays below that element.
proof fn lemma_skipped_inside(w: TextWalk, d: nat, events: Seq<HtmlEvent>)
    requires
        w.skip == Some(d),
        w.depth >= d + 1,
        forall|k: int| 0 <= k <= events.len() ==> net_depth(#[trigger] events.take(k)) >= 0,
    ensures
        walk_from(w, events).skip == Some(d),
        walk_from(w, events).text == w.text,
        walk_from(w, events).depth == w.depth + net_depth(events),
    decreases events.len(),
{
    if events.len() > 0 {
        let prev = events.drop_last();
        assert forall|k: int| 0 <= k <= prev.len() implies net_depth(#[trigger] prev.take(k)) >= 0 by {
            assert(prev.take(k) =~= events.take(k));
        }
        lemma_skipped_inside(w, d, prev);
        assert(events.take(events.len() as int) =~= events);
    }
}

/// A hidden element below the root is left out of the displayed text with
/// everything inside it, at any depth: the walk through it ends where it
/// began, so the displayed text is that of the HTML without the element.
pub proof fn lemma_hidden_element_left_out(prefix: Seq<HtmlEvent>, open: HtmlEvent, inner: Seq<HtmlEvent>, suffix: Seq<HtmlEvent>)
    requires
        walk(prefix).skip is None,
        walk(prefix).depth > 0,
        open matches HtmlEvent::Open { name, hidden, class, aria_hidden, style }
            && element_hidden(name@, hidden, opt_view(class), opt_view(aria_hidden), opt_view(style)),
        balanced(inner),
    ensures
        walk(prefix + seq![open] + inner + seq![HtmlEvent::Close]) == walk(prefix),
        plain_text_spec(prefix + seq![open] + inner + seq![HtmlEvent::Close] + suffix) == plain_text_spec(prefix + suffix),
{
    let w = walk(prefix);
    let sub = seq![open] + inner + seq![HtmlEvent::Close];
    let w1 = walk_step(w, open);
    assert(w1.skip == Some(w.depth) && w1.depth == w.depth + 1 && w1.text == w.text);
    lemma_skipped_inside(w1, w.depth, inner);
    let w2 = walk_from(w1, inner);
    assert(w2.depth == w.depth + 1);
    lemma_walk_concat(prefix, sub);
    assert(sub.drop_last() =~= seq![open] + inner);
    assert(sub.last() == HtmlEvent::Close);
    lemma_walk_concat(prefix, seq![open] + inner);
    lemma_walk_concat(prefix + seq![open], inner);
    assert(prefix + (seq![open] + inner) =~= prefix + seq![open] + inner);
    assert((prefix + seq![open]).drop_last() =~= prefix);
    assert((prefix + seq![open]).last() == open);
    assert(walk(prefix + seq![open]) == w1);
    assert(walk(prefix + seq![open] + inner) == w2);
    assert(walk(prefix + sub) == walk_step(w2, HtmlEvent::Close));
    assert(prefix + sub =~= prefix + seq![open] + inner + seq![HtmlEvent::Close]);
    assert(walk(prefix + sub) == w);
    lemma_walk_concat(prefix + sub, suffix);
    lemma_walk_concat(prefix, suffix);
}

/// The root element is never skipped, whatever its attributes: the text
/// directly inside it is gathered.
pub proof fn lemma_root_text_kept(root: HtmlEvent, t: String)
    requires
        root is Open,
    ensures
        walk(seq![root, HtmlEvent::Text(t)]).text == t@ + seq![' '],
{
    let ev = seq![root, HtmlEvent::Text(t)];
    assert(ev.drop_last() =~= seq![root]);
    assert(ev.last() == HtmlEvent::Text(t));
    assert(seq![root].drop_last() =~= Seq::<HtmlEvent>::empty());
    assert(seq![root].last() == root);
    let w0 = walk(Seq::<HtmlEvent>::empty());
    assert(w0.depth == 0 && w0.skip is None && w0.text == Seq::<char>::empty());
    assert(walk(seq![root]) == walk_step(w0, root));
    assert(walk(seq![root]).skip is None);
    assert(walk(seq![root]).text =~= Seq::<char>::empty());
    assert(Seq::<char>::empty() + t@ + seq![' '] =~= t@ + seq![' ']);
}

/// Words joined by single spaces.
pub open spec fn join_words(ws: Seq<Seq<char>>) -> Seq<char>
    decreases ws.len(),
{
    if ws.len() == 0 {
        seq![]
    } else if ws.len() == 1 {
        ws[0]
    } else {
        join_words(ws.drop_last()) + seq![' '] + ws.last()
    }
}

/// The displayed text of a walk: its words, single-spaced.
pub open spec fn plain_text_spec(events: Seq<HtmlEvent>) -> Seq<char> {
    join_words(words(walk(events).text))
}

fn opt_chars(v: &Option<String>) -> (out: Option<Vec<char>>)
    ensures
        match out {
            Some(c) => opt_view(*v) == Some(c@),
            None => v is None,
        },
{
    match v {
        Some(s) => Some(str_chars(s.as_str())),
        None => None,
    }
}

fn is_one_of_hidden_tags(name: &[char]) -> (out: bool)
    ensures
        out == (name@ == script_tag() || name@ == style_tag() || name@ == template_tag() || name@ == noscript_tag() || name@ == svg_tag()),
{
    chars_eq(name, &script_tag_chars()) || chars_eq(name, &style_tag_chars()) || chars_eq(name, &template_tag_chars())
        || chars_eq(name, &noscript_tag_chars()) || chars_eq(name, &svg_tag_chars())
}

fn contains_word(ws: &Vec<Vec<char>>, w: &[char]) -> (out: bool)
    ensures
        out == ws@.map_values(|x: Vec<char>| x@).contains(w@),
{
    let ghost vs = ws@.map_values(|x: Vec<char>| x@);
    let mut i: usize = 0;
    while i < ws.len()
        invariant
            i <= ws@.len(),
            vs == ws@.map_values(|x: Vec<char>| x@),
            forall|j: int| 0 <= j < i ==> vs[j] != w@,
        decreases ws@.len() - i,
    {
        if chars_eq(&ws[i], w) {
            assert(vs[i as int] == w@);
            return true;
        }
        i = i + 1;
    }
    false
}

fn chars_without_spaces(s: &[char]) -> (out: Vec<char>)
    ensures
        out@ == without_spaces(s@),
{
    let mut out: Vec<char> = Vec::new();
    let mut i: usize = 0;
    while i < s.len()
        invariant
            i <= s@.len(),
            out@ == without_spaces(s@.take(i as int)),
        decreases s@.len() - i,
    {
        assert(s@.take(i as int + 1).drop_last() =~= s@.take(i as int));
        if s[i] != ' ' {
            out.push(s[i]);
        }
        i = i + 1;
    }
    assert(s@.take(s@.len() as int) =~= s@);
    out
}

fn is_hidden_element(name: &String, hidden: bool, class: &Option<String>, aria_hidden: &Option<String>, style: &Option<String>) -> (out: bool)
    ensures
        out == element_hidden(name@, hidden, opt_view(*class), opt_view(*aria_hidden), opt_view(*style)),
{
    if is_one_of_hidden_tags(&str_chars(name.as_str())) || hidden {
        return true;
    }
    let by_class = match opt_chars(class) {
        Some(c) => {
            let ws = chars_words(&c);
            contains_word(&ws, &hidden_class_chars()) || contains_word(&ws, &invisible_class_chars())
        },
        None => false,
    };
    let by_aria = match opt_chars(aria_hidden) {
        Some(a) => chars_eq(&a, &true_value_chars()),
        None => false,
    };
    let by_style = match opt_chars(style) {
        Some(s) => chars_find_from(&chars_without_spaces(&s), &display_none_chars(), 0).is_some(),
        None => false,
    };
    by_class || by_aria || by_style
}

/// The displayed text of a walk through an HTML tree, single-spaced.
pub fn plain_text_of(events: &[HtmlEvent]) -> (out: String)
    ensures
        out@ == plain_text_spec(events@),
{
    let mut text: Vec<char> = Vec::new();
    let mut depth: usize = 0;
    let mut skip: Option<usize> = None;
    let mut i: usize = 0;
    while i < events.len()
        invariant
            i <= events@.len(),
            depth <= i,
            skip matches Some(s) ==> s < depth,
            walk(events@.take(i as int)) == (TextWalk {
                text: text@,
                depth: depth as nat,
                skip: match skip { Some(s) => Some(s as nat), None => None },
            }),
        decreases events@.len() - i,
    {
        assert(events@.take(i as int + 1).drop_last() =~= events@.take(i as int));
        assert(events@.take(i as int + 1).last() == events@[i as int]);
        let ghost w0 = walk(events@.take(i as int));
        let ghost e = events@[i as int];
        match &events[i] {
            HtmlEvent::Open { name, hidden, class, aria_hidden, style } => {
                if skip.is_none() && depth > 0 && is_hidden_element(name, *hidden, class, aria_hidden, style) {
                    skip = Some(depth);
                }
                depth = depth + 1;
                assert(walk_step(w0, e).depth == depth);
                assert(walk_step(w0, e).skip == match skip { Some(s) => Some(s as nat), None => None });
            },
            HtmlEvent::Text(t) => {
                if skip.is_none() {
                    push_all(&mut text, &str_chars(t.as_str()));
                    text.push(' ');
                }
                assert(walk_step(w0, e).text == text@);
            },
            HtmlEvent::Close => {
                if depth > 0 {
                    depth = depth - 1;
                }
                if skip == Some(depth) {
                    skip = None;
                }
                assert(walk_step(w0, e).depth == depth);
                assert(walk_step(w0, e).skip == match skip { Some(s) => Some(s as nat), None => None });
            },
        }
        assert(walk(events@.take(i as int + 1)) == walk_step(w0, e));
        i = i + 1;
    }
    assert(events@.take(events@.len() as int) =~= events@);
    let ws = chars_words(&text);
    let ghost wv = ws@.map_values(|w: Vec<char>| w@);
    let mut out: Vec<char> = Vec::new();
    let mut k: usize = 0;
    while k < ws.len()
        invariant
            k <= ws@.len(),
            wv == ws@.map_values(|w: Vec<char>| w@),
            out@ == join_words(wv.take(k as int)),
        decreases ws@.len() - k,
    {
        assert(wv.take(k as int + 1).drop_last() =~= wv.take(k as int));
        if k > 0 {
            out.push(' ');
        } else {
            assert(wv.take(1) =~= seq![wv[0]]);
        }
        push_all(&mut out, &ws[k]);
        k = k + 1;
    }
    assert(wv.take(ws@.len() as int) =~= wv);
    string_from_chars(&out)
}

/// Extract text only from displayed HTML nodes. Compiled output, not raw
/// source, is required so conditional wikitext omitted during rendering
/// cannot be indexed.
pub fn plain_body(html: &str) -> (out: String)
    ensures
        out@ == plain_text_spec(html_events(html@)),
{
    let events = parse_html_events(html);
    plain_text_of(&events)
}

/// The error when a search would scan too many candidates.
pub open spec fn scan_limit_message() -> Seq<char> {
    seq!['s', 'e', 'a', 'r', 'c', 'h', ' ', 'e', 'x', 'c', 'e', 'e', 'd', 's', ' ', 'c', 'a', 'n', 'd', 'i', 'd', 'a', 't', 'e', ' ', 's', 'c', 'a', 'n', ' ', 'l', 'i', 'm', 'i', 't']
}

pub fn scan_limit_message_chars() -> (out: Vec<char>)
    ensures
        out@ == scan_limit_message(),
{
    vec!['s', 'e', 'a', 'r', 'c', 'h', ' ', 'e', 'x', 'c', 'e', 'e', 'd', 's', ' ', 'c', 'a', 'n', 'd', 'i', 'd', 'a', 't', 'e', ' ', 's', 'c', 'a', 'n', ' ', 'l', 'i', 'm', 'i', 't']
}

/// Starts the error for a refused Meilisearch request.
pub open spec fn meili_failed_prefix() -> Seq<char> {
    seq!['M', 'e', 'i', 'l', 'i', 's', 'e', 'a', 'r', 'c', 'h', ' ', 'r', 'e', 'q', 'u', 'e', 's', 't', ' ', 'f', 'a', 'i', 'l', 'e', 'd', ':', ' ', 'H', 'T', 'T', 'P', ' ']
}

pub fn meili_failed_prefix_chars() -> (out: Vec<char>)
    ensures
        out@ == meili_failed_prefix(),
{
    vec!['M', 'e', 'i', 'l', 'i', 's', 'e', 'a', 'r', 'c', 'h', ' ', 'r', 'e', 'q', 'u', 'e', 's', 't', ' ', 'f', 'a', 'i', 'l', 'e', 'd', ':', ' ', 'H', 'T', 'T', 'P', ' ']
}

/// Starts the error for an unreachable Meilisearch.
pub open spec fn meili_unavailable_prefix() -> Seq<char> {
    seq!['M', 'e', 'i', 'l', 'i', 's', 'e', 'a', 'r', 'c', 'h', ' ', 'u', 'n', 'a', 'v', 'a', 'i', 'l', 'a', 'b', 'l', 'e', ':', ' ']
}

pub fn meili_unavailable_prefix_chars() -> (out: Vec<char>)
    ensures
        out@ == meili_unavailable_prefix(),
{
    vec!['M', 'e', 'i', 'l', 'i', 's', 'e', 'a', 'r', 'c', 'h', ' ', 'u', 'n', 'a', 'v', 'a', 'i', 'l', 'a', 'b', 'l', 'e', ':', ' ']
}

/// The error for a wait longer than retries allow.
pub open spec fn meili_budget_message() -> Seq<char> {
    seq!['M', 'e', 'i', 'l', 'i', 's', 'e', 'a', 'r', 'c', 'h', ' ', 'R', 'e', 't', 'r', 'y', '-', 'A', 'f', 't', 'e', 'r', ' ', 'e', 'x', 'c', 'e', 'e', 'd', 's', ' ', 'r', 'e', 't', 'r', 'y', ' ', 'b', 'u', 'd', 'g', 'e', 't']
}

pub fn meili_budget_message_chars() -> (out: Vec<char>)
    ensures
        out@ == meili_budget_message(),
{
    vec!['M', 'e', 'i', 'l', 'i', 's', 'e', 'a', 'r', 'c', 'h', ' ', 'R', 'e', 't', 'r', 'y', '-', 'A', 'f', 't', 'e', 'r', ' ', 'e', 'x', 'c', 'e', 'e', 'd', 's', ' ', 'r', 'e', 't', 'r', 'y', ' ', 'b', 'u', 'd', 'g', 'e', 't']
}


// ---------------------------------------------------------------- paging

pub const BATCH: usize = 50;
pub const MAX_CANDIDATES: usize = 1000;

/// How many candidates the next batch asks for after `raw_offset` were
/// scanned; none are left past 1000.
pub fn next_batch_size(raw_offset: usize) -> (out: Result<usize, Error>)
    requires
        raw_offset <= MAX_CANDIDATES,
    ensures
        raw_offset < MAX_CANDIDATES ==> out == Ok::<usize, Error>(if MAX_CANDIDATES - raw_offset < BATCH { (MAX_CANDIDATES - raw_offset) as usize } else { BATCH }),
        raw_offset == MAX_CANDIDATES ==> (out matches Err(e) && error_is(e, ErrorType::Request, scan_limit_message())),
{
    let left = MAX_CANDIDATES - raw_offset;
    let size = if left < BATCH { left } else { BATCH };
    if size == 0 {
        return Err(Error::new(string_from_chars(&scan_limit_message_chars()), ErrorType::Request));
    }
    Ok(size)
}

/// The visible hits among what a scan has seen.
pub open spec fn visible_hits(seen: Seq<Option<SearchHit>>) -> Seq<SearchHit>
    decreases seen.len(),
{
    if seen.len() == 0 {
        seq![]
    } else {
        match seen.last() {
            Some(h) => visible_hits(seen.drop_last()).push(h),
            None => visible_hits(seen.drop_last()),
        }
    }
}

/// Where a search stands: how many candidates it scanned, how many visible
/// pages it passed, and the hits of the page asked for.
#[derive(Debug)]
pub struct SearchCursor {
    pub offset: usize,
    pub limit: usize,
    pub raw_offset: usize,
    pub visible_count: usize,
    pub hits: Vec<SearchHit>,
}

impl SearchCursor {
    pub fn new(request: &SearchRequest) -> (out: SearchCursor)
        ensures
            out.offset == request.offset,
            out.limit == request.limit,
            out.raw_offset == 0,
            out.visible_count == 0,
            out.hits@.len() == 0,
    {
        SearchCursor { offset: request.offset, limit: request.limit, raw_offset: 0, visible_count: 0, hits: Vec::new() }
    }

    /// Takes the next candidate, as the visibility check left it: a hit the
    /// user may see, or nothing. Returns whether the page is full, there
    /// being another visible hit after it.
    pub fn see(&mut self, hit: Option<SearchHit>) -> (full: bool)
        requires
            old(self).visible_count < usize::MAX,
        ensures
            final(self).offset == old(self).offset,
            final(self).limit == old(self).limit,
            final(self).raw_offset == old(self).raw_offset,
            hit is None ==> !full && final(self).visible_count == old(self).visible_count && final(self).hits@ == old(self).hits@,
            hit matches Some(h) ==> (if old(self).visible_count >= old(self).offset && old(self).hits@.len() == old(self).limit {
                full && final(self).visible_count == old(self).visible_count && final(self).hits@ == old(self).hits@
            } else {
                !full && final(self).visible_count == old(self).visible_count + 1
                    && final(self).hits@ == (if old(self).visible_count >= old(self).offset { old(self).hits@.push(h) } else { old(self).hits@ })
            }),
    {
        match hit {
            None => false,
            Some(h) => {
                if self.visible_count >= self.offset {
                    if self.hits.len() == self.limit {
                        return true;
                    }
                    self.hits.push(h);
                }
                self.visible_count = self.visible_count + 1;
                false
            },
        }
    }

    /// Ends a batch of `count` candidates that asked for `size`; returns
    /// whether the index has no more.
    pub fn end_batch(&mut self, count: usize, size: usize) -> (done: bool)
        requires
            old(self).raw_offset + count <= usize::MAX,
        ensures
            final(self).raw_offset == old(self).raw_offset + count,
            final(self).offset == old(self).offset,
            final(self).limit == old(self).limit,
            final(self).visible_count == old(self).visible_count,
            final(self).hits@ == old(self).hits@,
            done == (count < size),
    {
        self.raw_offset = self.raw_offset + count;
        count < size
    }
}

/// What a cursor holds after seeing `seen` from the start, unless it filled
/// up: the visible hits counted, and those from `offset` on, at most `limit`.
pub open spec fn scan_state(seen: Seq<Option<SearchHit>>, offset: nat, limit: nat) -> (nat, Seq<SearchHit>) {
    let v = visible_hits(seen);
    let from = if v.len() < offset { v.len() } else { offset };
    let to = if v.len() < offset + limit { v.len() } else { offset + limit };
    (v.len(), v.subrange(from as int, to as int))
}

/// Paging counts visible pages only: a cursor that has seen `seen` and did
/// not fill up has counted exactly the visible hits and holds exactly those
/// from `offset` on, at most `limit`; seeing one more visible hit past a
/// full page reports it full and changes nothing. Hidden candidates change
/// nothing at all.
pub proof fn lemma_paging_counts_visible_hits(seen: Seq<Option<SearchHit>>, next: Option<SearchHit>, offset: nat, limit: nat)
    ensures
        next is None ==> scan_state(seen.push(next), offset, limit) == scan_state(seen, offset, limit),
        next matches Some(h) ==> ({
            let (n, hits) = scan_state(seen, offset, limit);
            let (n2, hits2) = scan_state(seen.push(next), offset, limit);
            &&& n2 == n + 1
            &&& hits2 == if n >= offset && hits.len() < limit { hits.push(h) } else { hits }
            &&& (n >= offset ==> hits.len() == if n - offset < limit { n - offset } else { limit as int })
            &&& (n < offset ==> hits.len() == 0)
        }),
{
    assert(seen.push(next).drop_last() =~= seen);
    let v = visible_hits(seen);
    match next {
        None => {},
        Some(h) => {
            let v2 = visible_hits(seen.push(next));
            assert(v2 == v.push(h));
            let from = if v.len() < offset { v.len() } else { offset };
            let to = if v.len() < offset + limit { v.len() } else { offset + limit };
            let from2 = if v2.len() < offset { v2.len() } else { offset };
            let to2 = if v2.len() < offset + limit { v2.len() } else { offset + limit };
            if v.len() >= offset && v.len() - offset < limit {
                assert(v2.subrange(from2 as int, to2 as int) =~= v.subrange(from as int, to as int).push(h));
            } else {
                assert(v2.subrange(from2 as int, to2 as int) =~= v.subrange(from as int, to as int));
            }
        },
    }
}

/// What a cursor with `n` visible hits counted and `hits` kept makes of a
/// batch of candidates, as the visibility check left them: the count, the
/// hits kept, and whether the page filled up, there being another visible
/// hit after it (the candidates after that one are not looked at).
pub open spec fn fold_batch(n: nat, hits: Seq<SearchHit>, offset: nat, limit: nat, batch: Seq<Option<SearchHit>>) -> (nat, Seq<SearchHit>, bool)
    decreases batch.len(),
{
    if batch.len() == 0 {
        (n, hits, false)
    } else {
        let (n1, h1, full) = fold_batch(n, hits, offset, limit, batch.drop_last());
        if full {
            (n1, h1, true)
        } else {
            match batch.last() {
                None => (n1, h1, false),
                Some(h) => if n1 >= offset && h1.len() == limit {
                    (n1, h1, true)
                } else {
                    ((n1 + 1) as nat, if n1 >= offset { h1.push(h) } else { h1 }, false)
                },
            }
        }
    }
}

/// Folding a batch continues the scan: a cursor that holds what the scan of
/// `seen` gives holds, after a batch that does not fill the page, what the
/// scan of `seen` followed by the batch gives.
pub proof fn lemma_batch_continues_scan(seen: Seq<Option<SearchHit>>, batch: Seq<Option<SearchHit>>, offset: nat, limit: nat)
    ensures
        !fold_batch(scan_state(seen, offset, limit).0, scan_state(seen, offset, limit).1, offset, limit, batch).2 ==> ({
            let (n, hits, _) = fold_batch(scan_state(seen, offset, limit).0, scan_state(seen, offset, limit).1, offset, limit, batch);
            (n, hits) == scan_state(seen + batch, offset, limit)
        }),
    decreases batch.len(),
{
    if batch.len() == 0 {
        assert(seen + batch =~= seen);
    } else {
        let rest = batch.drop_last();
        lemma_batch_continues_scan(seen, rest, offset, limit);
        let (n0, h0) = scan_state(seen, offset, limit);
        let (n1, h1, full) = fold_batch(n0, h0, offset, limit, rest);
        if !full {
            assert(seen + batch =~= (seen + rest).push(batch.last()));
            lemma_paging_counts_visible_hits(seen + rest, batch.last(), offset, limit);
        }
    }
}

impl SearchCursor {
    /// Takes a batch of candidates, as the visibility check left them, and
    /// ends the batch of `size` asked for: `Some(true)` when the page filled
    /// up with another visible hit after it (more results exist), `Some(false)`
    /// when the batch was short and so the last, `None` when the next batch
    /// is to be asked for.
    pub fn see_batch(&mut self, batch: Vec<Option<SearchHit>>, size: usize) -> (out: Option<bool>)
        requires
            old(self).visible_count + batch@.len() <= usize::MAX,
            old(self).raw_offset + batch@.len() <= usize::MAX,
        ensures
            final(self).offset == old(self).offset,
            final(self).limit == old(self).limit,
            ({
                let (n, hits, full) = fold_batch(old(self).visible_count as nat, old(self).hits@, old(self).offset as nat, old(self).limit as nat, batch@);
                &&& final(self).visible_count == n
                &&& final(self).hits@ == hits
                &&& full ==> out == Some(true)
                &&& !full ==> final(self).raw_offset == old(self).raw_offset + batch@.len()
                    && out == (if batch@.len() < size { Some(false) } else { None::<bool> })
            }),
    {
        let ghost all = batch@;
        let ghost n0 = self.visible_count as nat;
        let ghost h0 = self.hits@;
        let count = batch.len();
        let mut rest = batch;
        let mut i: usize = 0;
        while i < count
            invariant
                i <= count == all.len(),
                all == batch@,
                rest@ == all.subrange(i as int, all.len() as int),
                self.offset == old(self).offset,
                self.limit == old(self).limit,
                self.raw_offset == old(self).raw_offset,
                old(self).raw_offset + all.len() <= usize::MAX,
                self.visible_count <= old(self).visible_count + i,
                old(self).visible_count + all.len() <= usize::MAX,
                n0 == old(self).visible_count,
                h0 == old(self).hits@,
                ({
                    let (n, hits, full) = fold_batch(n0, h0, self.offset as nat, self.limit as nat, all.take(i as int));
                    !full && self.visible_count == n && self.hits@ == hits
                }),
            decreases count - i,
        {
            let hit = rest.remove(0);
            assert(hit == all[i as int]);
            assert(all.take(i + 1).drop_last() =~= all.take(i as int));
            assert(all.take(i + 1).last() == all[i as int]);
            let ghost before_n = self.visible_count;
            let ghost before_h = self.hits@;
            let full = self.see(hit);
            if full {
                proof {
                    let f = fold_batch(n0, h0, self.offset as nat, self.limit as nat, all.take(i + 1));
                    assert(f.2);
                    assert(f.0 == before_n && f.1 == before_h);
                    lemma_fold_stays_full(n0, h0, self.offset as nat, self.limit as nat, all, i + 1);
                    assert(self.visible_count == before_n && self.hits@ == before_h);
                    let g = fold_batch(old(self).visible_count as nat, old(self).hits@, old(self).offset as nat, old(self).limit as nat, all);
                    assert(g == f);
                }
                return Some(true);
            }
            i = i + 1;
        }
        assert(all.take(count as int) =~= all);
        let done = self.end_batch(count, size);
        if done { Some(false) } else { None }
    }
}

/// Once a batch fills the page, the rest of it changes nothing.
proof fn lemma_fold_stays_full(n: nat, hits: Seq<SearchHit>, offset: nat, limit: nat, batch: Seq<Option<SearchHit>>, k: int)
    requires
        0 <= k <= batch.len(),
        fold_batch(n, hits, offset, limit, batch.take(k)).2,
    ensures
        fold_batch(n, hits, offset, limit, batch) == fold_batch(n, hits, offset, limit, batch.take(k)),
    decreases batch.len() - k,
{
    if k < batch.len() {
        assert(batch.take(k + 1).drop_last() =~= batch.take(k));
        lemma_fold_stays_full(n, hits, offset, limit, batch, k + 1);
    } else {
        assert(batch.take(k) =~= batch);
    }
}

/// The documents of a worker batch to send to the index: those of the
/// pending pages that are live, in queue order.
pub open spec fn live_documents(found: Seq<Option<SearchDocument>>) -> Seq<SearchDocument>
    decreases found.len(),
{
    if found.len() == 0 {
        seq![]
    } else {
        match found.last() {
            Some(d) => live_documents(found.drop_last()).push(d),
            None => live_documents(found.drop_last()),
        }
    }
}

/// The pages of a worker batch to remove from the index: the pending pages
/// that are gone or deleted, in queue order.
pub open spec fn gone_pages(pending: Seq<(i64, i64)>, found: Seq<Option<SearchDocument>>) -> Seq<i64>
    decreases found.len(),
{
    if found.len() == 0 || pending.len() != found.len() {
        seq![]
    } else {
        let rest = gone_pages(pending.drop_last(), found.drop_last());
        if found.last() is None { rest.push(pending.last().0) } else { rest }
    }
}

/// What the search worker does with one batch of the queue.
#[derive(Debug)]
pub struct IndexBatch {
    /// Documents to send to the index in one request.
    pub upsert: Vec<SearchDocument>,
    /// Pages to remove from the index, one request each.
    pub remove: Vec<i64>,
    /// Queue entries to acknowledge, as (page, generation): only the
    /// generation sent, so an edit queued meanwhile stays queued.
    pub acknowledge: Vec<(i64, i64)>,
}

/// The worker's plan for a batch, given the pending entries (page and
/// generation) and the document read for each page, `None` for a page gone
/// or deleted. Every entry is acknowledged once the index has them.
pub fn plan_index_batch(pending: &Vec<(i64, i64)>, found: Vec<Option<SearchDocument>>) -> (out: IndexBatch)
    requires
        pending@.len() == found@.len(),
    ensures
        out.upsert@ == live_documents(found@),
        out.remove@ == gone_pages(pending@, found@),
        out.acknowledge@ == pending@,
{
    let ghost all = found@;
    let count = found.len();
    let mut rest = found;
    let mut upsert: Vec<SearchDocument> = Vec::new();
    let mut remove: Vec<i64> = Vec::new();
    let mut acknowledge: Vec<(i64, i64)> = Vec::new();
    let mut i: usize = 0;
    while i < count
        invariant
            i <= count == all.len() == pending@.len(),
            rest@ == all.subrange(i as int, all.len() as int),
            upsert@ == live_documents(all.take(i as int)),
            remove@ == gone_pages(pending@.take(i as int), all.take(i as int)),
            acknowledge@ == pending@.take(i as int),
        decreases count - i,
    {
        let f = rest.remove(0);
        assert(f == all[i as int]);
        assert(all.take(i + 1).drop_last() =~= all.take(i as int));
        assert(pending@.take(i + 1).drop_last() =~= pending@.take(i as int));
        let entry = pending[i];
        match f {
            Some(d) => upsert.push(d),
            None => remove.push(entry.0),
        }
        acknowledge.push(entry);
        assert(acknowledge@ =~= pending@.take(i + 1));
        i = i + 1;
    }
    assert(all.take(count as int) =~= all);
    assert(pending@.take(count as int) =~= pending@);
    IndexBatch { upsert, remove, acknowledge }
}

// ---------------------------------------------------------------- Meilisearch retries

/// What one Meilisearch request came to.
#[derive(Debug)]
pub enum MeiliOutcome {
    /// A success status; the body is read next.
    Success,
    /// Another status: its code, how it reads, and the `Retry-After`
    /// header when there is one.
    Status { code: u16, status_text: String, retry_after: Option<String> },
    /// The connection failed or timed out.
    Unreachable(String),
    /// Any other failure.
    Failed(String),
}

/// What the client does next.
#[derive(Debug)]
pub enum MeiliStep {
    /// Read the response.
    Done,
    /// Wait this many nanoseconds, then ask again.
    Retry(u64),
    /// Give up with this error.
    Fail(Error),
}

pub const NANOS_PER_MILLI: u64 = 1_000_000;

/// The most a retry after a refusal may wait, in nanoseconds.
pub const MEILI_BUDGET_NANOS: u64 = 5_000_000_000;

/// The Unix time, in seconds, of an HTTP date.
pub uninterp spec fn http_date_secs(value: Seq<char>) -> Option<u64>;

/// `httpdate::parse_http_date`, as seconds since the Unix epoch (such a
/// date is never before it). The result is named.
#[verifier::external_body]
fn parse_http_date(value: &str) -> (out: Option<u64>)
    ensures
        out == http_date_secs(value@),
{
    match httpdate::parse_http_date(value) {
        Ok(at) => at.duration_since(std::time::UNIX_EPOCH).ok().map(|since| since.as_secs()),
        Err(_) => None,
    }
}

/// Whether a refusal is retried: too many requests, a bad gateway, an
/// unavailable service or a gateway timeout.
pub open spec fn retryable_status(code: u16) -> bool {
    code == 429 || code == 502 || code == 503 || code == 504
}

/// The wait a `Retry-After` header asks for at `now`: a number of seconds,
/// or until an HTTP date (nothing if it passed).
pub open spec fn retry_after_wait(header: Seq<char>, now: i128) -> Option<int> {
    match parse_u64(header) {
        Some(secs) => Some(secs * 1_000_000_000),
        None => match http_date_secs(header) {
            Some(at) => Some(if at * 1_000_000_000 > now { at * 1_000_000_000 - now } else { 0 }),
            None => None,
        },
    }
}

/// What to do after attempt `attempt` (from 0) came to `outcome` at `now`
/// (nanoseconds since the epoch); `backoff` is the wait, in nanoseconds,
/// drawn for this attempt. The result: done, the wait before a retry, or the
/// error's message.
pub open spec fn meili_step_spec(attempt: u32, outcome: MeiliOutcome, backoff: u64, now: i128) -> (bool, Option<int>, Seq<char>) {
    match outcome {
        MeiliOutcome::Success => (true, None, seq![]),
        MeiliOutcome::Status { code, status_text, retry_after } =>
            if attempt < 2 && retryable_status(code) {
                let wait: int = match retry_after {
                    Some(h) => match retry_after_wait(h@, now) { Some(w) => w, None => backoff as int },
                    None => backoff as int,
                };
                if wait > MEILI_BUDGET_NANOS { (false, None, meili_budget_message()) } else { (false, Some(wait), seq![]) }
            } else {
                (false, None, meili_failed_prefix() + status_text@)
            },
        MeiliOutcome::Unreachable(text) =>
            if attempt < 2 { (false, Some(backoff as int), seq![]) } else { (false, None, meili_unavailable_prefix() + text@) },
        MeiliOutcome::Failed(text) => (false, None, meili_unavailable_prefix() + text@),
    }
}

fn header_wait(header: &str, now: i128) -> (out: Option<u64>)
    requires
        -1_000_000_000_000_000_000_000_000_000_000 <= now,
    ensures
        match retry_after_wait(header@, now) {
            Some(w) => if w <= MEILI_BUDGET_NANOS { out == Some(w as u64) } else { out == Some((MEILI_BUDGET_NANOS + 1) as u64) },
            None => out is None,
        },
{
    match chars_parse_u64(&str_chars(header)) {
        Some(secs) => if secs > 5 { Some(MEILI_BUDGET_NANOS + 1) } else { Some(secs * 1_000_000_000) },
        None => match parse_http_date(header) {
            Some(at) => {
                let at_nanos: i128 = (at as i128) * 1_000_000_000;
                if at_nanos > now {
                    let wait: i128 = at_nanos - now;
                    if wait > MEILI_BUDGET_NANOS as i128 { Some(MEILI_BUDGET_NANOS + 1) } else { Some(wait as u64) }
                } else {
                    Some(0)
                }
            },
            None => None,
        },
    }
}

/// What the client does after attempt `attempt` came to `outcome`.
pub fn meili_step(attempt: u32, outcome: &MeiliOutcome, backoff: u64, now: i128) -> (out: MeiliStep)
    requires
        -1_000_000_000_000_000_000_000_000_000_000 <= now,
    ensures
        meili_step_spec(attempt, *outcome, backoff, now).0 <==> out is Done,
        meili_step_spec(attempt, *outcome, backoff, now).1 matches Some(w) ==> out matches MeiliStep::Retry(n) && n == w,
        out matches MeiliStep::Retry(n) ==> meili_step_spec(attempt, *outcome, backoff, now).1 == Some(n as int),
        out is Fail <==> !meili_step_spec(attempt, *outcome, backoff, now).0 && meili_step_spec(attempt, *outcome, backoff, now).1 is None,
        out matches MeiliStep::Fail(e) ==> meili_step_spec(attempt, *outcome, backoff, now).1 is None
            && error_is(e, ErrorType::Request, meili_step_spec(attempt, *outcome, backoff, now).2),
{
    match outcome {
        MeiliOutcome::Success => MeiliStep::Done,
        MeiliOutcome::Status { code, status_text, retry_after } => {
            if attempt < 2 && (*code == 429 || *code == 502 || *code == 503 || *code == 504) {
                let from_header = match retry_after {
                    Some(h) => header_wait(h.as_str(), now),
                    None => None,
                };
                let wait = match from_header {
                    Some(w) => w,
                    None => backoff,
                };
                if wait > MEILI_BUDGET_NANOS {
                    MeiliStep::Fail(Error::new(string_from_chars(&meili_budget_message_chars()), ErrorType::Request))
                } else {
                    MeiliStep::Retry(wait)
                }
            } else {
                let mut m = meili_failed_prefix_chars();
                push_all(&mut m, &str_chars(status_text.as_str()));
                MeiliStep::Fail(Error::new(string_from_chars(&m), ErrorType::Request))
            }
        },
        MeiliOutcome::Unreachable(text) => {
            if attempt < 2 {
                MeiliStep::Retry(backoff)
            } else {
                let mut m = meili_unavailable_prefix_chars();
                push_all(&mut m, &str_chars(text.as_str()));
                MeiliStep::Fail(Error::new(string_from_chars(&m), ErrorType::Request))
            }
        },
        MeiliOutcome::Failed(text) => {
            let mut m = meili_unavailable_prefix_chars();
            push_all(&mut m, &str_chars(text.as_str()));
            MeiliStep::Fail(Error::new(string_from_chars(&m), ErrorType::Request))
        },
    }
}

/// The wait before retry `attempt + 1`, in nanoseconds: 100 ms doubled per
/// attempt plus the jitter drawn for it, in milliseconds.
pub open spec fn meili_backoff_nanos(attempt: u32, jitter: u64) -> int {
    (100 * pow2(attempt as nat) + jitter) * NANOS_PER_MILLI
}

/// The wait before retry `attempt + 1`, in nanoseconds: 100 ms doubled per
/// attempt plus up to 39 ms of jitter.
pub fn meili_backoff(attempt: u32) -> (out: u64)
    requires
        attempt < 3,
    ensures
        exists|jitter: u64| jitter < 40 && out == meili_backoff_nanos(attempt, jitter),
{
    let jitter = random_jitter(40);
    let base: u64 = if attempt == 0 { 100 } else if attempt == 1 { 200 } else { 400 };
    proof {
        lemma2_to64();
        assert(base == 100 * pow2(attempt as nat));
        assert((base + jitter) * NANOS_PER_MILLI == meili_backoff_nanos(attempt, jitter));
    }
    (base + jitter) * NANOS_PER_MILLI
}

} // verus!
