//! What a page change makes stale: the navigation pages of a site, whose
//! compiled copies every page using them stores.

use crate::render::listing::{default_category, default_category_chars};
use crate::text::{chars_eq, str_chars, string_from_chars};
use vstd::prelude::*;

verus! {

/// Finds the pages a change makes stale and queues them for rerendering.
#[derive(Debug)]
pub struct OutdateService;

/// Whether a bar setting names `slug`.
pub open spec fn names_slug(v: Option<String>, slug: Seq<char>) -> bool {
    match v {
        Some(s) => s@ == slug,
        None => false,
    }
}

/// Whether `slug` is a navigation page of the site: its own top or side bar,
/// or a category's. Empty slugs name no page.
pub open spec fn is_nav_page_spec(slug: Seq<char>, site_top: Seq<char>, site_side: Seq<char>, categories: Seq<(Option<String>, Option<String>)>) -> bool {
    slug.len() > 0 && (slug == site_top || slug == site_side
        || exists|i: int| 0 <= i < categories.len()
            && (names_slug((#[trigger] categories[i]).0, slug) || names_slug(categories[i].1, slug)))
}

fn option_is(v: &Option<String>, slug: &[char]) -> (out: bool)
    ensures
        out == names_slug(*v, slug@),
{
    match v {
        Some(s) => chars_eq(&str_chars(s.as_str()), slug),
        None => false,
    }
}

/// Whether `slug` is one of the site's navigation pages, given the site's
/// bars and each category's.
pub fn is_nav_page(slug: &str, site_top: &str, site_side: &str, categories: &[(Option<String>, Option<String>)]) -> (out: bool)
    ensures
        out == is_nav_page_spec(slug@, site_top@, site_side@, categories@),
{
    let s = str_chars(slug);
    if s.len() == 0 {
        return false;
    }
    if chars_eq(&s, &str_chars(site_top)) || chars_eq(&s, &str_chars(site_side)) {
        return true;
    }
    let mut i: usize = 0;
    while i < categories.len()
        invariant
            i <= categories@.len(),
            s@ == slug@,
            s@.len() > 0,
            forall|j: int| 0 <= j < i ==> !(names_slug((#[trigger] categories@[j]).0, slug@) || names_slug(categories@[j].1, slug@)),
        decreases categories@.len() - i,
    {
        if option_is(&categories[i].0, &s) || option_is(&categories[i].1, &s) {
            assert(names_slug(categories@[i as int].0, slug@) || names_slug(categories@[i as int].1, slug@));
            assert(s@.len() > 0);
            return true;
        }
        i = i + 1;
    }
    false
}

/// Ascending, each value once.
pub open spec fn strictly_increasing(s: Seq<i64>) -> bool {
    forall|i: int, j: int| 0 <= i < j < s.len() ==> s[i] < s[j]
}

/// The pages to rerender after a change of `page_id`, from the pages that
/// link to or include it: every other page among `from_ids`, once each, in
/// ascending order.
pub fn dependent_pages(from_ids: &[i64], page_id: i64) -> (out: Vec<i64>)
    ensures
        strictly_increasing(out@),
        forall|x: i64| out@.contains(x) <==> (x != page_id && from_ids@.contains(x)),
{
    let mut out: Vec<i64> = Vec::new();
    let mut i: usize = 0;
    while i < from_ids.len()
        invariant
            i <= from_ids@.len(),
            strictly_increasing(out@),
            forall|x: i64| out@.contains(x) <==> (x != page_id && from_ids@.subrange(0, i as int).contains(x)),
        decreases from_ids@.len() - i,
    {
        let id = from_ids[i];
        let ghost before = out@;
        if id != page_id {
            let mut k: usize = 0;
            while k < out.len() && out[k] < id
                invariant
                    k <= out@.len(),
                    out@ == before,
                    forall|j: int| 0 <= j < k ==> out@[j] < id,
                decreases out@.len() - k,
            {
                k = k + 1;
            }
            if k == out.len() || out[k] != id {
                proof {
                    assert forall|j: int| k <= j < before.len() implies id < before[j] by {
                        assert(before[k as int] >= id);
                        assert(before[k as int] != id);
                        if j > k {
                            assert(before[k as int] < before[j]);
                        }
                    }
                }
                out.insert(k, id);
                proof {
                    assert(out@ == before.subrange(0, k as int).push(id) + before.subrange(k as int, before.len() as int));
                    assert forall|x: i64| out@.contains(x) <==> (before.contains(x) || x == id) by {
                        if before.contains(x) {
                            let j = choose|j: int| 0 <= j < before.len() && before[j] == x;
                            if j < k {
                                assert(out@[j] == x);
                            } else {
                                assert(out@[j + 1] == x);
                            }
                        }
                        if x == id {
                            assert(out@[k as int] == id);
                        }
                        if out@.contains(x) {
                            let j = choose|j: int| 0 <= j < out@.len() && out@[j] == x;
                            if j < k {
                                assert(before[j] == x);
                            } else if j > k {
                                assert(before[j - 1] == x);
                            }
                        }
                    }
                }
            } else {
                proof {
                    assert(before[k as int] == id);
                    assert(before.contains(id));
                }
            }
        }
        assert(forall|x: i64| out@.contains(x) <==> (before.contains(x) || (x == id && id != page_id)));
        proof {
            let prefix = from_ids@.subrange(0, i as int);
            let next = from_ids@.subrange(0, i + 1);
            assert(next == prefix.push(id));
            assert forall|x: i64| next.contains(x) <==> (prefix.contains(x) || x == id) by {
                if x == id {
                    assert(next[i as int] == id);
                }
                if prefix.contains(x) {
                    let j = choose|j: int| 0 <= j < prefix.len() && prefix[j] == x;
                    assert(next[j] == x);
                }
                if next.contains(x) {
                    let j = choose|j: int| 0 <= j < next.len() && next[j] == x;
                    if j < i {
                        assert(prefix[j] == x);
                    }
                }
            }
            assert forall|x: i64| out@.contains(x) <==> (x != page_id && from_ids@.subrange(0, i + 1).contains(x)) by {
                assert(before.contains(x) <==> (x != page_id && prefix.contains(x)));
                assert(next.contains(x) <==> (prefix.contains(x) || x == id));
            }
        }
        i = i + 1;
    }
    proof {
        assert(from_ids@.subrange(0, from_ids@.len() as int) == from_ids@);
    }
    out
}

/// Which pages an edit of the category template `page_slug` in
/// `category_slug` makes stale: none unless the page is the template; every
/// page of the site (`Some(None)`) for the `_default` category's template,
/// which every other category may inherit; else the pages of that category.
pub open spec fn template_scope_spec(category_slug: Seq<char>, page_slug: Seq<char>, template: Seq<char>) -> Option<Option<Seq<char>>> {
    if page_slug != template {
        None
    } else if category_slug == default_category() {
        Some(None)
    } else {
        Some(Some(category_slug))
    }
}

/// The pages an edit of `page_slug` in `category_slug` makes stale as a
/// template, `template` being the configured template page's slug.
pub fn template_scope(category_slug: &str, page_slug: &str, template: &str) -> (out: Option<Option<String>>)
    ensures
        match (out, template_scope_spec(category_slug@, page_slug@, template@)) {
            (None, None) => true,
            (Some(None), Some(None)) => true,
            (Some(Some(c)), Some(Some(d))) => c@ == d,
            _ => false,
        },
{
    if !chars_eq(&str_chars(page_slug), &str_chars(template)) {
        return None;
    }
    let category = str_chars(category_slug);
    if chars_eq(&category, &default_category_chars()) {
        Some(None)
    } else {
        Some(Some(string_from_chars(&category)))
    }
}

/// Whether an edit of `slug` changes the site's own bars, which every page
/// shows: then every page's copy is stale, and no category's need be looked up.
pub fn is_site_bar(slug: &str, site_top: &str, site_side: &str) -> (out: bool)
    ensures
        out == (slug@ == site_top@ || slug@ == site_side@),
{
    let s = str_chars(slug);
    chars_eq(&s, &str_chars(site_top)) || chars_eq(&s, &str_chars(site_side))
}

} // verus!
