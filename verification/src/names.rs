//! Page names: a page's category and name, and where a category keeps its
//! form template.

use crate::text::{chars_eq, chars_find_from, chars_sub, find_from, lemma_find_from_bounds, push_all, str_chars, string_from_chars};
use vstd::prelude::*;

verus! {

/// How a page, user or site is named: by ID or by slug.
#[derive(Debug)]
pub enum Reference {
    Id(i64),
    Slug(String),
}

/// The page that holds a category's form template.
pub open spec fn template_name() -> Seq<char> {
    seq!['_', 't', 'e', 'm', 'p', 'l', 'a', 't', 'e']
}

pub fn template_name_chars() -> (out: Vec<char>)
    ensures
        out@ == template_name(),
{
    vec!['_', 't', 'e', 'm', 'p', 'l', 'a', 't', 'e']
}


/// Where the category of a full page name ends: its first colon.
pub open spec fn category_colon(slug: Seq<char>) -> Option<int> {
    find_from(slug, seq![':'], 0)
}

/// The category part of a full page name, if it has one.
pub open spec fn category_of(slug: Seq<char>) -> Option<Seq<char>> {
    match category_colon(slug) {
        Some(k) => Some(slug.subrange(0, k)),
        None => None,
    }
}

/// The page name without its category.
pub open spec fn name_of(slug: Seq<char>) -> Seq<char> {
    match category_colon(slug) {
        Some(k) => slug.subrange(k + 1, slug.len() as int),
        None => slug,
    }
}

/// Split a full page name at its first colon into category and name.
pub fn split_category(slug: &str) -> (out: (Option<String>, String))
    ensures
        match out.0 {
            Some(c) => category_of(slug@) == Some(c@),
            None => category_of(slug@) is None,
        },
        out.1@ == name_of(slug@),
{
    let s = str_chars(slug);
    let colon = vec![':'];
    assert(colon@ =~= seq![':']);
    proof { lemma_find_from_bounds(s@, seq![':'], 0); }
    match chars_find_from(&s, &colon, 0) {
        Some(k) => {
            assert(k + 1 <= s@.len());
            (Some(string_from_chars(&chars_sub(&s, 0, k))), string_from_chars(&chars_sub(&s, k + 1, s.len())))
        },
        None => {
            (None, string_from_chars(&s))
        },
    }
}

/// The page holding the form template of the category of `slug`; none for a
/// template page itself.
pub open spec fn template_slug_spec(slug: Seq<char>) -> Option<Seq<char>> {
    if name_of(slug) == template_name() {
        None
    } else {
        match category_of(slug) {
            Some(c) => Some(c + seq![':'] + template_name()),
            None => Some(template_name()),
        }
    }
}

pub fn template_slug(page_slug: &str) -> (out: Option<String>)
    ensures
        match out {
            Some(t) => template_slug_spec(page_slug@) == Some(t@),
            None => template_slug_spec(page_slug@) is None,
        },
{
    let (category, name) = split_category(page_slug);
    let template = template_name_chars();
    if chars_eq(&str_chars(name.as_str()), &template) {
        return None;
    }
    match category {
        Some(c) => {
            let mut out = str_chars(c.as_str());
            out.push(':');
            push_all(&mut out, &template);
            Some(string_from_chars(&out))
        },
        None => Some(string_from_chars(&template)),
    }
}

/// A page's full name from its category, if it has one, and its name.
pub open spec fn fullname_spec(category: Option<Seq<char>>, page: Seq<char>) -> Seq<char> {
    match category {
        Some(c) => c + seq![':'] + page,
        None => page,
    }
}

/// Where a live form template comes from for a page: hidden pages (their
/// name starts with `_`, such as `_template` itself) keep their own source;
/// any other page takes its category's template. The page's full name comes
/// with it, for the template's tokens.
pub open spec fn live_template_spec(category: Option<Seq<char>>, page: Seq<char>) -> Option<(Seq<char>, Seq<char>)> {
    if page.len() > 0 && page[0] == '_' {
        None
    } else {
        match template_slug_spec(fullname_spec(category, page)) {
            Some(t) => Some((fullname_spec(category, page), t)),
            None => None,
        }
    }
}

/// The full name of a page and the slug of the page holding its live
/// template; none for a hidden page.
pub fn live_template_slug(category: Option<&str>, page: &str) -> (out: Option<(String, String)>)
    ensures
        match out {
            Some((f, t)) => live_template_spec(match category { Some(c) => Some(c@), None => None }, page@) == Some((f@, t@)),
            None => live_template_spec(match category { Some(c) => Some(c@), None => None }, page@) is None,
        },
{
    let p = str_chars(page);
    if p.len() > 0 && p[0] == '_' {
        return None;
    }
    let fullname = match category {
        Some(c) => {
            let mut out = str_chars(c);
            out.push(':');
            push_all(&mut out, &p);
            assert(out@ =~= c@ + seq![':'] + page@);
            out
        },
        None => p,
    };
    assert(fullname@ == fullname_spec(match category { Some(c) => Some(c@), None => None }, page@));
    let name = string_from_chars(&fullname);
    match template_slug(name.as_str()) {
        Some(t) => Some((name, t)),
        None => None,
    }
}

} // verus!
