//! Which pages a ListPages or CountPages module lists: the pages its
//! selection matches, in its order, the ones anonymous readers may see, up
//! to its limit, and the items of the page of the listing shown. Times are
//! nanoseconds since the Unix epoch.

use crate::names::{name_of, split_category};
use crate::render::list_layout::{chars_trim_line_breaks, trim_line_breaks};
use crate::render::list_layout::{error_block, error_block_spec, layout_items, layout_items_spec, layout_total, layout_total_spec, pager, pager_spec};
use crate::render::list_pages::{BlockView, ModuleKind, OrderField, PageType, Selection, SelectionView, block_in, block_is, block_search_start, blocks_of, lemma_blocks_ordered, blocks_in_chars, strings_view};
use crate::render::page_tokens::{FormRecord, PageTokens, TokensView, substitute_outside_module_bodies, substitute_outside_spec};
use crate::text::{chars_eq, chars_find_from, find_from, push_all, push_sub, str_chars, string_from_chars};
use vstd::prelude::*;

verus! {

/// The category of pages without one.
pub open spec fn default_category() -> Seq<char> {
    seq!['_', 'd', 'e', 'f', 'a', 'u', 'l', 't']
}

pub fn default_category_chars() -> (out: Vec<char>)
    ensures
        out@ == default_category(),
{
    vec!['_', 'd', 'e', 'f', 'a', 'u', 'l', 't']
}


/// Opens a token that shows a form field as readers see it.
pub open spec fn form_data_open() -> Seq<char> {
    seq!['%', '%', 'f', 'o', 'r', 'm', '_', 'd', 'a', 't', 'a', '{']
}

pub fn form_data_open_chars() -> (out: Vec<char>)
    ensures
        out@ == form_data_open(),
{
    vec!['%', '%', 'f', 'o', 'r', 'm', '_', 'd', 'a', 't', 'a', '{']
}

/// Opens a token that shows a form field as stored.
pub open spec fn form_raw_open() -> Seq<char> {
    seq!['%', '%', 'f', 'o', 'r', 'm', '_', 'r', 'a', 'w', '{']
}

pub fn form_raw_open_chars() -> (out: Vec<char>)
    ensures
        out@ == form_raw_open(),
{
    vec!['%', '%', 'f', 'o', 'r', 'm', '_', 'r', 'a', 'w', '{']
}

/// A page a listing may show.
#[derive(Debug)]
pub struct ListedPage {
    pub page_id: i64,
    pub page_category_id: i64,
    pub slug: String,
    pub category: String,
    pub created_at: i128,
    pub updated_at: Option<i128>,
    pub title: String,
    pub tags: Vec<String>,
    pub wikitext_hash: Vec<u8>,
}

pub open spec fn tags_of(p: ListedPage) -> Seq<Seq<char>> {
    strings_view(p.tags@)
}

impl ListedPage {
    /// The page name without its category.
    pub fn name(&self) -> (out: String)
        ensures
            out@ == name_of(self.slug@),
    {
        let (_category, name) = split_category(self.slug.as_str());
        name
    }
}

/// Whether `page` is of the selection's page type: hidden pages' names start
/// with `_`.
pub open spec fn type_matches(t: PageType, name: Seq<char>) -> bool {
    let hidden = name.len() > 0 && name[0] == '_';
    match t {
        PageType::Normal => !hidden,
        PageType::Hidden => hidden,
        PageType::All => true,
    }
}

/// Whether a selection lists a page: its type, category and tags, and its
/// age when the selection has a cut-off (`created_after`).
pub open spec fn matches_spec(s: SelectionView, p: ListedPage, created_after: Option<i128>) -> bool {
    let tags = tags_of(p);
    &&& type_matches(s.page_type, name_of(p.slug@))
    &&& (s.all_categories || s.categories.contains(p.category@))
    &&& !s.excluded_categories.contains(p.category@)
    &&& (s.any_tags.len() == 0 || exists|i: int| 0 <= i < s.any_tags.len() && tags.contains(#[trigger] s.any_tags[i]))
    &&& (forall|i: int| 0 <= i < s.all_tags.len() ==> tags.contains(#[trigger] s.all_tags[i]))
    &&& !(exists|i: int| 0 <= i < s.excluded_tags.len() && tags.contains(#[trigger] s.excluded_tags[i]))
    &&& (!s.untagged || tags.len() == 0)
    &&& (created_after matches Some(after) ==> p.created_at >= after)
}

fn contains_string(v: &Vec<String>, s: &[char]) -> (out: bool)
    ensures
        out == strings_view(v@).contains(s@),
{
    let ghost vs = strings_view(v@);
    let mut i: usize = 0;
    while i < v.len()
        invariant
            i <= v@.len(),
            vs == strings_view(v@),
            forall|j: int| 0 <= j < i ==> vs[j] != s@,
        decreases v@.len() - i,
    {
        if chars_eq(&str_chars(v[i].as_str()), s) {
            assert(vs[i as int] == s@);
            return true;
        }
        i = i + 1;
    }
    false
}

/// Whether any of `wanted` is among `tags`.
fn any_in(wanted: &Vec<String>, tags: &Vec<String>) -> (out: bool)
    ensures
        out == exists|i: int| 0 <= i < strings_view(wanted@).len() && strings_view(tags@).contains(#[trigger] strings_view(wanted@)[i]),
{
    let ghost ws = strings_view(wanted@);
    let mut i: usize = 0;
    while i < wanted.len()
        invariant
            i <= wanted@.len(),
            ws == strings_view(wanted@),
            forall|j: int| 0 <= j < i ==> !strings_view(tags@).contains(#[trigger] ws[j]),
        decreases wanted@.len() - i,
    {
        if contains_string(tags, &str_chars(wanted[i].as_str())) {
            assert(strings_view(tags@).contains(ws[i as int]));
            return true;
        }
        i = i + 1;
    }
    false
}

/// Whether all of `wanted` are among `tags`.
fn all_in(wanted: &Vec<String>, tags: &Vec<String>) -> (out: bool)
    ensures
        out == forall|i: int| 0 <= i < strings_view(wanted@).len() ==> strings_view(tags@).contains(#[trigger] strings_view(wanted@)[i]),
{
    let ghost ws = strings_view(wanted@);
    let mut i: usize = 0;
    while i < wanted.len()
        invariant
            i <= wanted@.len(),
            ws == strings_view(wanted@),
            forall|j: int| 0 <= j < i ==> strings_view(tags@).contains(#[trigger] ws[j]),
        decreases wanted@.len() - i,
    {
        if !contains_string(tags, &str_chars(wanted[i].as_str())) {
            assert(!strings_view(tags@).contains(strings_view(wanted@)[i as int]));
            return false;
        }
        i = i + 1;
    }
    true
}

impl Selection {
    /// Whether the selection lists `page`; `created_after` is the cut-off of
    /// a `created_at="last N days"` selection.
    pub fn matches(&self, page: &ListedPage, created_after: Option<i128>) -> (out: bool)
        ensures
            out == matches_spec(self@, *page, created_after),
            forall|k: int| 0 <= k < self@.any_tags.len() && #[trigger] tags_of(*page).contains(self@.any_tags[k]) ==>
                out == matches_spec((SelectionView { any_tags: seq![], ..self@ }), *page, created_after),
            (self@.any_tags.len() > 0 && forall|k: int| 0 <= k < self@.any_tags.len() ==> !#[trigger] tags_of(*page).contains(self@.any_tags[k])) ==> !out,
            forall|k: int| 0 <= k < self@.all_tags.len() && !#[trigger] tags_of(*page).contains(self@.all_tags[k]) ==> !out,
            forall|k: int| 0 <= k < self@.excluded_tags.len() && #[trigger] tags_of(*page).contains(self@.excluded_tags[k]) ==> !out,
    {
        let name = str_chars(page.name().as_str());
        let hidden = name.len() > 0 && name[0] == '_';
        let type_ok = match self.page_type {
            PageType::Normal => !hidden,
            PageType::Hidden => hidden,
            PageType::All => true,
        };
        let category = str_chars(page.category.as_str());
        let category_ok = (self.all_categories || contains_string(&self.categories, &category))
            && !contains_string(&self.excluded_categories, &category);
        let any_ok = self.any_tags.len() == 0 || any_in(&self.any_tags, &page.tags);
        let all_ok = all_in(&self.all_tags, &page.tags);
        let none_excluded = !any_in(&self.excluded_tags, &page.tags);
        let untagged_ok = !self.untagged || page.tags.len() == 0;
        let age_ok = match created_after {
            Some(after) => page.created_at >= after,
            None => true,
        };
        proof {
            let sv = self@;
            assert(sv.any_tags.len() == self.any_tags@.len());
            assert(tags_of(*page).len() == page.tags@.len());
            assert(tags_of(*page) == strings_view(page.tags@));
            assert(sv.all_tags == strings_view(self.all_tags@));
            assert(sv.excluded_tags == strings_view(self.excluded_tags@));
            assert(type_ok == type_matches(sv.page_type, name_of(page.slug@)));
            assert(category_ok == ((sv.all_categories || sv.categories.contains(page.category@)) && !sv.excluded_categories.contains(page.category@)));
            assert(any_ok == (sv.any_tags.len() == 0 || exists|i: int| 0 <= i < sv.any_tags.len() && tags_of(*page).contains(#[trigger] sv.any_tags[i])));
            assert(all_ok == (forall|i: int| 0 <= i < sv.all_tags.len() ==> tags_of(*page).contains(#[trigger] sv.all_tags[i])));
            assert(none_excluded == !(exists|i: int| 0 <= i < sv.excluded_tags.len() && tags_of(*page).contains(#[trigger] sv.excluded_tags[i])));
        }
        proof {
            lemma_any_tag_suffices_all(self@, *page, created_after);
        }
        type_ok && category_ok && any_ok && all_ok && none_excluded && untagged_ok && age_ok
    }
}

/// A selection with plain tags lists a page that carries any one of them,
/// wherever it stands among them, exactly as it would with no plain tags:
/// the page's other criteria alone decide.
pub proof fn lemma_any_tag_suffices(s: SelectionView, p: ListedPage, created_after: Option<i128>, k: int)
    requires
        0 <= k < s.any_tags.len(),
        tags_of(p).contains(s.any_tags[k]),
    ensures
        matches_spec(s, p, created_after) == matches_spec((SelectionView { any_tags: seq![], ..s }), p, created_after),
{
}

/// A selection whose plain tags are all missing from a page does not list it.
pub proof fn lemma_no_any_tag_excludes(s: SelectionView, p: ListedPage, created_after: Option<i128>)
    requires
        s.any_tags.len() > 0,
        forall|k: int| 0 <= k < s.any_tags.len() ==> !#[trigger] tags_of(p).contains(s.any_tags[k]),
    ensures
        !matches_spec(s, p, created_after),
{
}

/// A page missing any one of a selection's required tags, wherever it
/// stands among them, is not listed; nor is a page carrying any one of its
/// excluded tags.
pub proof fn lemma_required_and_excluded_tags(s: SelectionView, p: ListedPage, created_after: Option<i128>, k: int)
    ensures
        0 <= k < s.all_tags.len() && !tags_of(p).contains(s.all_tags[k]) ==> !matches_spec(s, p, created_after),
        0 <= k < s.excluded_tags.len() && tags_of(p).contains(s.excluded_tags[k]) ==> !matches_spec(s, p, created_after),
{
}

/// Whether a selection lists a page does not depend on the order of its
/// plain tags: any arrangement of the same tags lists the same pages.
pub proof fn lemma_any_tags_order_free(s: SelectionView, t: Seq<Seq<char>>, p: ListedPage, created_after: Option<i128>)
    requires
        t.to_set() == s.any_tags.to_set(),
    ensures
        matches_spec(s, p, created_after) == matches_spec((SelectionView { any_tags: t, ..s }), p, created_after),
{
    let tags = tags_of(p);
    if s.any_tags.len() > 0 && exists|i: int| 0 <= i < s.any_tags.len() && tags.contains(#[trigger] s.any_tags[i]) {
        let i = choose|i: int| 0 <= i < s.any_tags.len() && tags.contains(#[trigger] s.any_tags[i]);
        assert(s.any_tags.to_set().contains(s.any_tags[i]));
        assert(t.to_set().contains(s.any_tags[i]));
        let j = choose|j: int| 0 <= j < t.len() && t[j] == s.any_tags[i];
        assert(tags.contains(t[j]));
    }
    if t.len() > 0 && exists|i: int| 0 <= i < t.len() && tags.contains(#[trigger] t[i]) {
        let i = choose|i: int| 0 <= i < t.len() && tags.contains(#[trigger] t[i]);
        assert(t.to_set().contains(t[i]));
        assert(s.any_tags.to_set().contains(t[i]));
        let j = choose|j: int| 0 <= j < s.any_tags.len() && s.any_tags[j] == t[i];
        assert(tags.contains(s.any_tags[j]));
    }
    if s.any_tags.len() == 0 {
        if t.len() > 0 {
            assert(t.to_set().contains(t[0]));
            assert(s.any_tags.to_set().contains(t[0]));
        }
    }
    if t.len() == 0 {
        if s.any_tags.len() > 0 {
            assert(s.any_tags.to_set().contains(s.any_tags[0]));
            assert(t.to_set().contains(s.any_tags[0]));
        }
    }
}

proof fn lemma_any_tag_suffices_all(s: SelectionView, p: ListedPage, created_after: Option<i128>)
    ensures
        forall|k: int| 0 <= k < s.any_tags.len() && #[trigger] tags_of(p).contains(s.any_tags[k]) ==>
            matches_spec(s, p, created_after) == matches_spec((SelectionView { any_tags: seq![], ..s }), p, created_after),
{
}

pub const NANOS_PER_DAY: i128 = 86_400_000_000_000;

/// The cut-off of a `last N days` selection at `now`.
pub fn created_after(now: i128, days: Option<i64>) -> (out: Option<i128>)
    requires
        -1_000_000_000_000_000_000_000_000_000_000 <= now <= 1_000_000_000_000_000_000_000_000_000_000,
    ensures
        out == match days { Some(d) => Some((now - d * NANOS_PER_DAY) as i128), None => None::<i128> },
{
    match days {
        Some(d) => {
            assert(-9223372036854775808 * 86_400_000_000_000 <= d * NANOS_PER_DAY <= 9223372036854775807 * 86_400_000_000_000) by (nonlinear_arith)
                requires i64::MIN <= d <= i64::MAX;
            Some(now - (d as i128) * NANOS_PER_DAY)
        },
        None => None,
    }
}

/// The visible pages, in order, up to `limit`: `visible[i]` says whether
/// anonymous readers may see `pages[i]`.
pub open spec fn visible_up_to(visible: Seq<bool>, limit: Option<usize>, i: int, taken: nat) -> Seq<int>
    decreases visible.len() - i,
{
    if i < 0 || i >= visible.len() || limit == Some(taken as usize) {
        seq![]
    } else if visible[i] {
        seq![i] + visible_up_to(visible, limit, i + 1, taken + 1)
    } else {
        visible_up_to(visible, limit, i + 1, taken)
    }
}

/// The positions of the pages a listing shows: visible ones, in order, no
/// more than the limit. Compiled HTML is shared, so only pages anonymous
/// readers may see are listed.
pub fn select_visible(visible: &[bool], limit: Option<usize>) -> (out: Vec<usize>)
    ensures
        out@.map_values(|k: usize| k as int) == visible_up_to(visible@, limit, 0, 0),
{
    let mut out: Vec<usize> = Vec::new();
    let mut i: usize = 0;
    while i < visible.len()
        invariant
            i <= visible@.len(),
            out@.map_values(|k: usize| k as int) + visible_up_to(visible@, limit, i as int, out@.len() as nat)
                == visible_up_to(visible@, limit, 0, 0),
        decreases visible@.len() - i,
    {
        if limit == Some(out.len()) {
            assert(visible_up_to(visible@, limit, i as int, out@.len() as nat) =~= Seq::<int>::empty());
            assert(out@.map_values(|k: usize| k as int) =~= out@.map_values(|k: usize| k as int) + Seq::<int>::empty());
            return out;
        }
        let ghost before = out@.map_values(|k: usize| k as int);
        if visible[i] {
            out.push(i);
            assert(out@.map_values(|k: usize| k as int) =~= before.push(i as int));
            assert(before + visible_up_to(visible@, limit, i as int, (out@.len() - 1) as nat)
                =~= out@.map_values(|k: usize| k as int) + visible_up_to(visible@, limit, i as int + 1, out@.len() as nat));
        }
        i = i + 1;
    }
    assert(visible_up_to(visible@, limit, i as int, out@.len() as nat) =~= Seq::<int>::empty());
    assert(out@.map_values(|k: usize| k as int) =~= out@.map_values(|k: usize| k as int) + Seq::<int>::empty());
    out
}

/// How many pages of `per_page` items `count` items fill.
pub fn page_count(count: usize, per_page: usize) -> (out: usize)
    requires
        per_page > 0,
    ensures
        out == if count % per_page == 0 { (count / per_page) as int } else { count / per_page + 1 },
{
    let q = count / per_page;
    if count % per_page == 0 {
        q
    } else {
        assert(q < usize::MAX) by (nonlinear_arith)
            requires
                count % per_page != 0,
                q == count / per_page,
                per_page > 0,
                count <= usize::MAX,
        {
            if per_page == 1 {
                assert(count % per_page == 0);
            }
        }
        q + 1
    }
}

/// Which of `count` listed pages page `list_page` (from 1) of a listing
/// shows: from `start` to `end`.
pub fn shown_range(count: usize, list_page: usize, per_page: usize) -> (out: (usize, usize))
    requires
        list_page >= 1,
        (list_page - 1) * per_page <= usize::MAX,
    ensures
        out.0 == if (list_page - 1) * per_page < count { (list_page - 1) * per_page } else { count as int },
        out.1 == if out.0 + per_page < count { out.0 + per_page } else { count as int },
{
    let skip = (list_page - 1) * per_page;
    let start = if skip < count { skip } else { count };
    let end = if count - start > per_page { start + per_page } else { count };
    (start, end)
}

/// The category a page's modules list by default: its own, or `_default`.
pub fn current_category(category: Option<&str>) -> (out: String)
    ensures
        out@ == match category { Some(c) => c@, None => default_category() },
{
    match category {
        Some(c) => string_from_chars(&str_chars(c)),
        None => string_from_chars(&default_category_chars()),
    }
}

/// The full name of the page a listing is on, which its page navigation
/// links to.
pub fn listing_fullname(category: &str, page: &str) -> (out: String)
    ensures
        out@ == if category@ == default_category() { page@ } else { category@ + seq![':'] + page@ },
{
    let c = str_chars(category);
    if chars_eq(&c, &default_category_chars()) {
        return string_from_chars(&str_chars(page));
    }
    let mut out = c;
    out.push(':');
    push_all(&mut out, &str_chars(page));
    string_from_chars(&out)
}


// ---------------------------------------------------------------- order

/// `str::to_lowercase` of `s`.
pub uninterp spec fn lowercase(s: Seq<char>) -> Seq<char>;

/// `str::to_lowercase`: the Unicode lowercase of `s`. The result is named.
#[verifier::external_body]
fn to_lowercase(s: &str) -> (out: String)
    ensures
        out@ == lowercase(s@),
{
    s.to_lowercase()
}

/// How strings compare: by their characters' code points, a prefix first.
/// UTF-8 keeps that order, so this is how `String`s compare.
pub open spec fn lex_order(a: Seq<char>, b: Seq<char>) -> int
    decreases a.len(),
{
    if a.len() == 0 {
        if b.len() == 0 { 0 } else { -1 }
    } else if b.len() == 0 {
        1
    } else if (a[0] as u32) < (b[0] as u32) {
        -1
    } else if (a[0] as u32) > (b[0] as u32) {
        1
    } else {
        lex_order(a.drop_first(), b.drop_first())
    }
}

pub open spec fn int_order(a: int, b: int) -> int {
    if a < b { -1 } else if a > b { 1 } else { 0 }
}

/// Missing times come first.
pub open spec fn opt_order(a: Option<i128>, b: Option<i128>) -> int {
    match (a, b) {
        (None, None) => 0,
        (None, Some(_)) => -1,
        (Some(_), None) => 1,
        (Some(x), Some(y)) => int_order(x as int, y as int),
    }
}

/// How two listed pages compare in a listing ordered by `order`: by the
/// order's field, reversed when descending, then by full name.
pub open spec fn page_order(a: ListedPage, b: ListedPage, order: OrderField, descending: bool) -> int {
    let primary = match order {
        OrderField::Name => lex_order(lowercase(name_of(a.slug@)), lowercase(name_of(b.slug@))),
        OrderField::Fullname => lex_order(a.slug@, b.slug@),
        OrderField::Title => lex_order(lowercase(a.title@), lowercase(b.title@)),
        OrderField::CreatedAt => int_order(a.created_at as int, b.created_at as int),
        OrderField::UpdatedAt => opt_order(a.updated_at, b.updated_at),
    };
    let directed = if descending { -primary } else { primary };
    if directed != 0 { directed } else { lex_order(a.slug@, b.slug@) }
}

proof fn lemma_lex_order_antisymmetric(a: Seq<char>, b: Seq<char>)
    ensures
        lex_order(a, b) == -lex_order(b, a),
        -1 <= lex_order(a, b) <= 1,
    decreases a.len(),
{
    if a.len() > 0 && b.len() > 0 && (a[0] as u32) == (b[0] as u32) {
        lemma_lex_order_antisymmetric(a.drop_first(), b.drop_first());
    }
}

proof fn lemma_page_order_antisymmetric(a: ListedPage, b: ListedPage, order: OrderField, descending: bool)
    ensures
        page_order(a, b, order, descending) == -page_order(b, a, order, descending),
{
    lemma_lex_order_antisymmetric(lowercase(name_of(a.slug@)), lowercase(name_of(b.slug@)));
    lemma_lex_order_antisymmetric(a.slug@, b.slug@);
    lemma_lex_order_antisymmetric(lowercase(a.title@), lowercase(b.title@));
}

fn chars_lex_order(a: &[char], b: &[char]) -> (out: i8)
    ensures
        out == lex_order(a@, b@),
{
    let mut i: usize = 0;
    assert(a@.skip(0) =~= a@);
    assert(b@.skip(0) =~= b@);
    while i < a.len() && i < b.len()
        invariant
            i <= a@.len(),
            i <= b@.len(),
            lex_order(a@, b@) == lex_order(a@.skip(i as int), b@.skip(i as int)),
        decreases a@.len() - i,
    {
        assert(a@.skip(i as int)[0] == a@[i as int]);
        assert(b@.skip(i as int)[0] == b@[i as int]);
        if (a[i] as u32) < (b[i] as u32) {
            return -1;
        }
        if (a[i] as u32) > (b[i] as u32) {
            return 1;
        }
        assert(a@.skip(i as int).drop_first() =~= a@.skip(i as int + 1));
        assert(b@.skip(i as int).drop_first() =~= b@.skip(i as int + 1));
        i = i + 1;
    }
    if i < a.len() {
        1
    } else if i < b.len() {
        -1
    } else {
        0
    }
}

/// The text a page is ordered by under `order`, lowercased where the order
/// ignores case; empty for the orders by time.
pub open spec fn order_text(p: ListedPage, order: OrderField) -> Seq<char> {
    match order {
        OrderField::Name => lowercase(name_of(p.slug@)),
        OrderField::Title => lowercase(p.title@),
        _ => seq![],
    }
}

fn order_text_of(p: &ListedPage, order: OrderField) -> (out: Vec<char>)
    ensures
        out@ == order_text(*p, order),
{
    match order {
        OrderField::Name => str_chars(to_lowercase(p.name().as_str()).as_str()),
        OrderField::Title => str_chars(to_lowercase(p.title.as_str()).as_str()),
        _ => Vec::new(),
    }
}

fn compare_pages(a: &ListedPage, b: &ListedPage, a_text: &[char], b_text: &[char], order: OrderField, descending: bool) -> (out: i8)
    requires
        a_text@ == order_text(*a, order),
        b_text@ == order_text(*b, order),
    ensures
        out == page_order(*a, *b, order, descending),
{
    let a_slug = str_chars(a.slug.as_str());
    let b_slug = str_chars(b.slug.as_str());
    let primary: i8 = match order {
        OrderField::Name => chars_lex_order(a_text, b_text),
        OrderField::Title => chars_lex_order(a_text, b_text),
        OrderField::Fullname => chars_lex_order(&a_slug, &b_slug),
        OrderField::CreatedAt => if a.created_at < b.created_at { -1 } else if a.created_at > b.created_at { 1 } else { 0 },
        OrderField::UpdatedAt => match (a.updated_at, b.updated_at) {
            (None, None) => 0,
            (None, Some(_)) => -1,
            (Some(_), None) => 1,
            (Some(x), Some(y)) => if x < y { -1 } else if x > y { 1 } else { 0 },
        },
    };
    proof {
        lemma_lex_order_antisymmetric(a_text@, b_text@);
        lemma_lex_order_antisymmetric(a_slug@, b_slug@);
    }
    let directed: i8 = if descending { -primary } else { primary };
    if directed != 0 { directed } else { chars_lex_order(&a_slug, &b_slug) }
}

/// Positions `k` and `k + 1` of `positions` are in listing order.
pub open spec fn adjacent_in_order(pages: Seq<ListedPage>, positions: Seq<usize>, k: int, order: OrderField, descending: bool) -> bool {
    page_order(pages[positions[k] as int], pages[positions[k + 1] as int], order, descending) <= 0
}

/// The positions of `pages` in listing order: each position once, every
/// page before the next in the order (`page_order` at most 0), pages the
/// order ties keeping their order.
pub fn sort_pages(pages: &[ListedPage], order: OrderField, descending: bool) -> (out: Vec<usize>)
    ensures
        out@.len() == pages@.len(),
        forall|k: int| 0 <= k < out@.len() ==> out@[k] < pages@.len(),
        forall|j: int, k: int| 0 <= j < k < out@.len() ==> out@[j] != out@[k],
        forall|k: int| 0 <= k < out@.len() - 1 ==> #[trigger] adjacent_in_order(pages@, out@, k, order, descending),
{
    let mut texts: Vec<Vec<char>> = Vec::new();
    let mut t: usize = 0;
    while t < pages.len()
        invariant
            t <= pages@.len(),
            texts@.len() == t,
            forall|k: int| 0 <= k < t ==> (#[trigger] texts@[k])@ == order_text(pages@[k], order),
        decreases pages@.len() - t,
    {
        texts.push(order_text_of(&pages[t], order));
        t = t + 1;
    }
    let mut out: Vec<usize> = Vec::new();
    let mut i: usize = 0;
    while i < pages.len()
        invariant
            i <= pages@.len(),
            texts@.len() == pages@.len(),
            forall|k: int| 0 <= k < pages@.len() ==> (#[trigger] texts@[k])@ == order_text(pages@[k], order),
            out@.len() == i,
            forall|k: int| 0 <= k < out@.len() ==> out@[k] < i,
            forall|j: int, k: int| 0 <= j < k < out@.len() ==> out@[j] != out@[k],
            forall|k: int| 0 <= k < out@.len() - 1 ==> #[trigger] adjacent_in_order(pages@, out@, k, order, descending),
        decreases pages@.len() - i,
    {
        let mut p = out.len();
        while p > 0 && compare_pages(&pages[out[p - 1]], &pages[i], &texts[out[p - 1]], &texts[i], order, descending) > 0
            invariant
                p <= out@.len(),
                i < pages@.len(),
                texts@.len() == pages@.len(),
                forall|k: int| 0 <= k < pages@.len() ==> (#[trigger] texts@[k])@ == order_text(pages@[k], order),
                forall|k: int| 0 <= k < out@.len() ==> out@[k] < i,
                p < out@.len() ==> page_order(pages@[out@[p as int] as int], pages@[i as int], order, descending) > 0,
            decreases p,
        {
            p = p - 1;
        }
        let ghost before = out@;
        proof {
            if p < before.len() {
                lemma_page_order_antisymmetric(pages@[before[p as int] as int], pages@[i as int], order, descending);
            }
        }
        out.insert(p, i);
        assert(out@ == before.insert(p as int, i));
        assert forall|k: int| 0 <= k < out@.len() - 1 implies #[trigger] adjacent_in_order(pages@, out@, k, order, descending) by {
            if k < p - 1 {
                assert(out@[k] == before[k] && out@[k + 1] == before[k + 1]);
                assert(adjacent_in_order(pages@, before, k, order, descending));
            } else if k == p - 1 {
                assert(out@[k] == before[k] && out@[k + 1] == i);
            } else if k == p {
                assert(out@[k] == i && out@[k + 1] == before[k]);
            } else {
                assert(out@[k] == before[k - 1] && out@[k + 1] == before[k]);
                assert(adjacent_in_order(pages@, before, k - 1, order, descending));
            }
        }
        assert forall|j: int, k: int| 0 <= j < k < out@.len() implies out@[j] != out@[k] by {
            let bj = if j < p { j } else { j - 1 };
            let bk = if k < p { k } else { k - 1 };
            if j != p && k != p {
                assert(out@[j] == before[bj] && out@[k] == before[bk]);
            } else if j == p {
                assert(out@[k] == before[bk]);
            } else {
                assert(out@[j] == before[bj]);
            }
        }
        i = i + 1;
    }
    out
}


// ---------------------------------------------------------------- items

/// The whole seconds since the Unix epoch of an instant in nanoseconds,
/// rounded down, as `OffsetDateTime::unix_timestamp` gives them.
pub open spec fn unix_seconds(nanos: i128) -> int {
    nanos as int / 1_000_000_000
}

pub const MIN_DATED_NANOS: i128 = -377_705_116_800_000_000_000;
pub const MAX_DATED_NANOS: i128 = 253_402_300_799_999_999_999;

/// An instant `time` can hold.
pub open spec fn dated(nanos: i128) -> bool {
    MIN_DATED_NANOS <= nanos <= MAX_DATED_NANOS
}

fn seconds_of(nanos: i128) -> (out: i64)
    requires
        dated(nanos),
    ensures
        out == unix_seconds(nanos),
{
    if nanos >= 0 {
        let q: u128 = (nanos as u128) / 1_000_000_000;
        assert(q == nanos as int / 1_000_000_000);
        q as i64
    } else {
        let m: u128 = (-nanos) as u128;
        let q: u128 = (m + 999_999_999) / 1_000_000_000;
        assert(-(q as int) == nanos as int / 1_000_000_000);
        -(q as i64)
    }
}

/// Whether an item template uses form tokens, which need the listed pages'
/// form records.
pub open spec fn uses_forms_spec(body: Seq<char>) -> bool {
    find_from(body, form_data_open(), 0) is Some || find_from(body, form_raw_open(), 0) is Some
}

pub fn uses_forms(body: &str) -> (out: bool)
    ensures
        out == uses_forms_spec(body@),
{
    let b = str_chars(body);
    chars_find_from(&b, &form_data_open_chars(), 0).is_some() || chars_find_from(&b, &form_raw_open_chars(), 0).is_some()
}

/// The tokens of a listed page, with its form record if it has one.
pub open spec fn item_tokens(p: ListedPage, form: Option<FormRecord>) -> TokensView {
    TokensView {
        fullname: p.slug@,
        title: p.title@,
        created_at: Some(unix_seconds(p.created_at) as i64),
        updated_at: match p.updated_at { Some(u) => Some(unix_seconds(u) as i64), None => None },
        form,
    }
}

/// The item of each listed page: the item template, without line breaks at
/// its ends, with the page's tokens filled in outside nested modules.
pub fn render_items(body: &str, pages: &[ListedPage], forms: &[Option<FormRecord>]) -> (out: Vec<String>)
    requires
        forms@.len() == pages@.len(),
        forall|i: int| 0 <= i < pages@.len() ==> dated(#[trigger] pages@[i].created_at),
        forall|i: int| 0 <= i < pages@.len() ==> (#[trigger] pages@[i].updated_at matches Some(u) ==> dated(u)),
    ensures
        out@.len() == pages@.len(),
        forall|i: int| 0 <= i < out@.len() ==> (#[trigger] out@[i])@
            == substitute_outside_spec(trim_line_breaks(body@), item_tokens(pages@[i], forms@[i])),
{
    let trimmed = string_from_chars(&chars_trim_line_breaks(&str_chars(body)));
    let mut out: Vec<String> = Vec::new();
    let mut i: usize = 0;
    while i < pages.len()
        invariant
            i <= pages@.len(),
            forms@.len() == pages@.len(),
            trimmed@ == trim_line_breaks(body@),
            forall|k: int| 0 <= k < pages@.len() ==> dated(#[trigger] pages@[k].created_at),
            forall|k: int| 0 <= k < pages@.len() ==> (#[trigger] pages@[k].updated_at matches Some(u) ==> dated(u)),
            out@.len() == i,
            forall|k: int| 0 <= k < i ==> (#[trigger] out@[k])@
                == substitute_outside_spec(trim_line_breaks(body@), item_tokens(pages@[k], forms@[k])),
        decreases pages@.len() - i,
    {
        let page = &pages[i];
        let updated = match page.updated_at {
            Some(u) => Some(seconds_of(u)),
            None => None,
        };
        let form = match &forms[i] {
            Some(f) => Some(f),
            None => None,
        };
        let tokens = PageTokens {
            fullname: page.slug.as_str(),
            title: page.title.as_str(),
            created_at: Some(seconds_of(page.created_at)),
            updated_at: updated,
            form,
        };
        assert(tokens@ == item_tokens(pages@[i as int], forms@[i as int]));
        out.push(substitute_outside_module_bodies(trimmed.as_str(), &tokens));
        i = i + 1;
    }
    out
}


// ---------------------------------------------------------------- expansion

/// `source` from `copied` on with the modules from the `k`-th on replaced
/// by their outputs.
pub open spec fn splice_from(source: Seq<char>, blocks: Seq<BlockView>, outputs: Seq<Seq<char>>, k: int, copied: int) -> Seq<char>
    decreases blocks.len() - k,
{
    if k < 0 || k >= blocks.len() {
        source.subrange(copied, source.len() as int)
    } else {
        source.subrange(copied, blocks[k].start) + outputs[k] + splice_from(source, blocks, outputs, k + 1, blocks[k].end)
    }
}

/// `source` with each ListPages and CountPages module replaced by its output
/// and the text around them kept.
pub open spec fn splice_spec(source: Seq<char>, outputs: Seq<Seq<char>>) -> Seq<char> {
    splice_from(source, blocks_of(source), outputs, 0, 0)
}

/// Replaces each module of `source`, in order, by `outputs[k]`.
pub fn splice_blocks(source: &str, outputs: &[String]) -> (out: String)
    requires
        outputs@.len() == blocks_of(source@).len(),
    ensures
        out@ == splice_spec(source@, strings_view(outputs@)),
{
    let t = str_chars(source);
    let blocks = blocks_in_chars(source);
    let ghost bv = blocks_of(t@);
    let ghost ov = strings_view(outputs@);
    proof { lemma_blocks_ordered(t@); }
    let mut out: Vec<char> = Vec::new();
    let mut copied: usize = 0;
    let mut k: usize = 0;
    while k < blocks.len()
        invariant
            k <= blocks@.len(),
            t@ == source@,
            bv == blocks_of(t@),
            ov == strings_view(outputs@),
            outputs@.len() == bv.len(),
            blocks@.len() == bv.len(),
            forall|j: int| 0 <= j < blocks@.len() ==> block_is(#[trigger] blocks@[j], bv[j]),
            forall|j: int| 0 <= j < bv.len() ==> block_in(#[trigger] bv[j], block_search_start(bv, 0, j), t@.len() as int),
            copied <= t@.len(),
            k < bv.len() ==> copied <= bv[k as int].start,
            out@ + splice_from(t@, bv, ov, k as int, copied as int) == splice_from(t@, bv, ov, 0, 0),
        decreases blocks@.len() - k,
    {
        let ghost before = out@;
        let b = &blocks[k];
        assert(block_is(blocks@[k as int], bv[k as int]));
        assert(block_in(bv[k as int], block_search_start(bv, 0, k as int), t@.len() as int));
        push_sub(&mut out, &t, copied, b.range.start);
        push_all(&mut out, &str_chars(outputs[k].as_str()));
        assert(ov[k as int] == outputs@[k as int]@);
        assert(before + splice_from(t@, bv, ov, k as int, copied as int)
            =~= out@ + splice_from(t@, bv, ov, k as int + 1, b.range.end as int));
        copied = b.range.end;
        proof {
            if k + 1 < bv.len() {
                assert(block_in(bv[k + 1], block_search_start(bv, 0, k + 1), t@.len() as int));
            }
        }
        k = k + 1;
    }
    push_sub(&mut out, &t, copied, t.len());
    string_from_chars(&out)
}


/// What a module becomes: its error block when its arguments are wrong; for
/// ListPages the box of `items` with the navigation to page `list_page` of
/// `page_count`; for CountPages its body boxed with `total` filled in.
pub open spec fn module_output_spec(kind: ModuleKind, selection: Result<SelectionView, Seq<char>>, body: Seq<char>, items: Seq<Seq<char>>, fullname: Seq<char>, list_page: nat, page_count: nat, total: nat) -> Seq<char> {
    match selection {
        Err(message) => error_block_spec(kind, message),
        Ok(sel) => match kind {
            ModuleKind::ListPages => layout_items_spec(sel, items, pager_spec(fullname, list_page, page_count)),
            ModuleKind::CountPages => layout_total_spec(body, total),
        },
    }
}

pub fn module_output(kind: ModuleKind, selection: &Result<Selection, String>, body: &str, items: &[String], fullname: &str, list_page: usize, page_count: usize, total: usize) -> (out: String)
    requires
        page_count < usize::MAX,
    ensures
        out@ == module_output_spec(kind, match selection { Ok(s) => Ok(s@), Err(m) => Err(m@) }, body@, strings_view(items@), fullname@, list_page as nat, page_count as nat, total as nat),
{
    match selection {
        Err(message) => error_block(kind, message.as_str()),
        Ok(sel) => match kind {
            ModuleKind::ListPages => layout_items(sel, items, pager(fullname, list_page, page_count).as_str()),
            ModuleKind::CountPages => layout_total(body, total),
        },
    }
}

} // verus!
