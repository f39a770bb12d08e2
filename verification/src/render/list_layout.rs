//! How ListPages and CountPages results are laid out as wikitext: the item
//! box, Wikidot's page navigation, the CountPages total and module errors.

use crate::render::list_pages::{ModuleKind, Selection, SelectionView, strings_view};
use crate::text::{chars_find_from, chars_sub, chars_trim_end_at, decimal, find_from, lemma_find_from_bounds, lemma_trim_end_bounds, push_all, push_decimal_usize, push_sub, str_chars, string_from_chars, trim_end_at};
use vstd::prelude::*;

verus! {

/// Opens the block that shows a module error.
pub open spec fn error_open() -> Seq<char> {
    seq!['[', '[', 'd', 'i', 'v', ' ', 'c', 'l', 'a', 's', 's', '=', '"', 'e', 'r', 'r', 'o', 'r', '-', 'b', 'l', 'o', 'c', 'k', '"', ']', ']', '\n']
}

pub fn error_open_chars() -> (out: Vec<char>)
    ensures
        out@ == error_open(),
{
    vec!['[', '[', 'd', 'i', 'v', ' ', 'c', 'l', 'a', 's', 's', '=', '"', 'e', 'r', 'r', 'o', 'r', '-', 'b', 'l', 'o', 'c', 'k', '"', ']', ']', '\n']
}

/// How a ListPages module is named in an error.
pub open spec fn list_pages_label() -> Seq<char> {
    seq!['L', 'i', 's', 't', 'P', 'a', 'g', 'e', 's']
}

pub fn list_pages_label_chars() -> (out: Vec<char>)
    ensures
        out@ == list_pages_label(),
{
    vec!['L', 'i', 's', 't', 'P', 'a', 'g', 'e', 's']
}

/// How a CountPages module is named in an error.
pub open spec fn count_pages_label() -> Seq<char> {
    seq!['C', 'o', 'u', 'n', 't', 'P', 'a', 'g', 'e', 's']
}

pub fn count_pages_label_chars() -> (out: Vec<char>)
    ensures
        out@ == count_pages_label(),
{
    vec!['C', 'o', 'u', 'n', 't', 'P', 'a', 'g', 'e', 's']
}

/// Separates the module name from the message.
pub open spec fn error_middle() -> Seq<char> {
    seq![' ', 'm', 'o', 'd', 'u', 'l', 'e', ' ', 'e', 'r', 'r', 'o', 'r', ':', ' ']
}

pub fn error_middle_chars() -> (out: Vec<char>)
    ensures
        out@ == error_middle(),
{
    vec![' ', 'm', 'o', 'd', 'u', 'l', 'e', ' ', 'e', 'r', 'r', 'o', 'r', ':', ' ']
}

/// Ends an error block.
pub open spec fn error_close() -> Seq<char> {
    seq!['.', '\n', '[', '[', '/', 'd', 'i', 'v', ']', ']']
}

pub fn error_close_chars() -> (out: Vec<char>)
    ensures
        out@ == error_close(),
{
    vec!['.', '\n', '[', '[', '/', 'd', 'i', 'v', ']', ']']
}

/// Opens one separated item.
pub open spec fn item_open() -> Seq<char> {
    seq!['[', '[', 'd', 'i', 'v', ' ', 'c', 'l', 'a', 's', 's', '=', '"', 'l', 'i', 's', 't', '-', 'p', 'a', 'g', 'e', 's', '-', 'i', 't', 'e', 'm', '"', ']', ']', '\n']
}

pub fn item_open_chars() -> (out: Vec<char>)
    ensures
        out@ == item_open(),
{
    vec!['[', '[', 'd', 'i', 'v', ' ', 'c', 'l', 'a', 's', 's', '=', '"', 'l', 'i', 's', 't', '-', 'p', 'a', 'g', 'e', 's', '-', 'i', 't', 'e', 'm', '"', ']', ']', '\n']
}

/// Closes one separated item.
pub open spec fn item_close() -> Seq<char> {
    seq!['\n', '[', '[', '/', 'd', 'i', 'v', ']', ']']
}

pub fn item_close_chars() -> (out: Vec<char>)
    ensures
        out@ == item_close(),
{
    vec!['\n', '[', '[', '/', 'd', 'i', 'v', ']', ']']
}

/// Opens the box around a listing.
pub open spec fn box_open() -> Seq<char> {
    seq!['\n', '[', '[', 'd', 'i', 'v', ' ', 'c', 'l', 'a', 's', 's', '=', '"', 'l', 'i', 's', 't', '-', 'p', 'a', 'g', 'e', 's', '-', 'b', 'o', 'x', '"', ']', ']', '\n']
}

pub fn box_open_chars() -> (out: Vec<char>)
    ensures
        out@ == box_open(),
{
    vec!['\n', '[', '[', 'd', 'i', 'v', ' ', 'c', 'l', 'a', 's', 's', '=', '"', 'l', 'i', 's', 't', '-', 'p', 'a', 'g', 'e', 's', '-', 'b', 'o', 'x', '"', ']', ']', '\n']
}

/// Closes the box around a listing.
pub open spec fn box_close() -> Seq<char> {
    seq!['[', '[', '/', 'd', 'i', 'v', ']', ']', '\n']
}

pub fn box_close_chars() -> (out: Vec<char>)
    ensures
        out@ == box_close(),
{
    vec!['[', '[', '/', 'd', 'i', 'v', ']', ']', '\n']
}

/// Opens the page navigation.
pub open spec fn pager_open() -> Seq<char> {
    seq!['[', '[', 'd', 'i', 'v', ' ', 'c', 'l', 'a', 's', 's', '=', '"', 'p', 'a', 'g', 'e', 'r', '"', ']', ']', '\n']
}

pub fn pager_open_chars() -> (out: Vec<char>)
    ensures
        out@ == pager_open(),
{
    vec!['[', '[', 'd', 'i', 'v', ' ', 'c', 'l', 'a', 's', 's', '=', '"', 'p', 'a', 'g', 'e', 'r', '"', ']', ']', '\n']
}

/// Closes the page navigation.
pub open spec fn pager_close() -> Seq<char> {
    seq!['\n', '[', '[', '/', 'd', 'i', 'v', ']', ']', '\n']
}

pub fn pager_close_chars() -> (out: Vec<char>)
    ensures
        out@ == pager_close(),
{
    vec!['\n', '[', '[', '/', 'd', 'i', 'v', ']', ']', '\n']
}

/// Starts the "page N of M" note.
pub open spec fn pager_no_open() -> Seq<char> {
    seq!['[', '[', 's', 'p', 'a', 'n', ' ', 'c', 'l', 'a', 's', 's', '=', '"', 'p', 'a', 'g', 'e', 'r', '-', 'n', 'o', '"', ']', ']', 'p', 'a', 'g', 'e', ' ']
}

pub fn pager_no_open_chars() -> (out: Vec<char>)
    ensures
        out@ == pager_no_open(),
{
    vec!['[', '[', 's', 'p', 'a', 'n', ' ', 'c', 'l', 'a', 's', 's', '=', '"', 'p', 'a', 'g', 'e', 'r', '-', 'n', 'o', '"', ']', ']', 'p', 'a', 'g', 'e', ' ']
}

/// Between the current page and the page count.
pub open spec fn of_word() -> Seq<char> {
    seq![' ', 'o', 'f', ' ']
}

pub fn of_word_chars() -> (out: Vec<char>)
    ensures
        out@ == of_word(),
{
    vec![' ', 'o', 'f', ' ']
}

/// Closes a span.
pub open spec fn span_close() -> Seq<char> {
    seq!['[', '[', '/', 's', 'p', 'a', 'n', ']', ']']
}

pub fn span_close_chars() -> (out: Vec<char>)
    ensures
        out@ == span_close(),
{
    vec!['[', '[', '/', 's', 'p', 'a', 'n', ']', ']']
}

/// Opens a link to another page of the listing.
pub open spec fn target_open() -> Seq<char> {
    seq!['[', '[', 's', 'p', 'a', 'n', ' ', 'c', 'l', 'a', 's', 's', '=', '"', 't', 'a', 'r', 'g', 'e', 't', '"', ']', ']', '[', '/']
}

pub fn target_open_chars() -> (out: Vec<char>)
    ensures
        out@ == target_open(),
{
    vec!['[', '[', 's', 'p', 'a', 'n', ' ', 'c', 'l', 'a', 's', 's', '=', '"', 't', 'a', 'r', 'g', 'e', 't', '"', ']', ']', '[', '/']
}

/// Between a page name and a listing page number.
pub open spec fn page_path() -> Seq<char> {
    seq!['/', 'p', '/']
}

pub fn page_path_chars() -> (out: Vec<char>)
    ensures
        out@ == page_path(),
{
    vec!['/', 'p', '/']
}

/// Closes a link to another page of the listing.
pub open spec fn link_close() -> Seq<char> {
    seq![']', '[', '[', '/', 's', 'p', 'a', 'n', ']', ']']
}

pub fn link_close_chars() -> (out: Vec<char>)
    ensures
        out@ == link_close(),
{
    vec![']', '[', '[', '/', 's', 'p', 'a', 'n', ']', ']']
}

/// The label of the link one page back.
pub open spec fn previous_label() -> Seq<char> {
    seq!['«', ' ', 'p', 'r', 'e', 'v', 'i', 'o', 'u', 's']
}

pub fn previous_label_chars() -> (out: Vec<char>)
    ensures
        out@ == previous_label(),
{
    vec!['«', ' ', 'p', 'r', 'e', 'v', 'i', 'o', 'u', 's']
}

/// The label of the link one page on.
pub open spec fn next_label() -> Seq<char> {
    seq!['n', 'e', 'x', 't', ' ', '»']
}

pub fn next_label_chars() -> (out: Vec<char>)
    ensures
        out@ == next_label(),
{
    vec!['n', 'e', 'x', 't', ' ', '»']
}

/// Stands for pages left out of the navigation.
pub open spec fn dots() -> Seq<char> {
    seq!['[', '[', 's', 'p', 'a', 'n', ' ', 'c', 'l', 'a', 's', 's', '=', '"', 'd', 'o', 't', 's', '"', ']', ']', '.', '.', '.', '[', '[', '/', 's', 'p', 'a', 'n', ']', ']']
}

pub fn dots_chars() -> (out: Vec<char>)
    ensures
        out@ == dots(),
{
    vec!['[', '[', 's', 'p', 'a', 'n', ' ', 'c', 'l', 'a', 's', 's', '=', '"', 'd', 'o', 't', 's', '"', ']', ']', '.', '.', '.', '[', '[', '/', 's', 'p', 'a', 'n', ']', ']']
}

/// Opens the number of the page shown.
pub open spec fn current_open() -> Seq<char> {
    seq!['[', '[', 's', 'p', 'a', 'n', ' ', 'c', 'l', 'a', 's', 's', '=', '"', 'c', 'u', 'r', 'r', 'e', 'n', 't', '"', ']', ']']
}

pub fn current_open_chars() -> (out: Vec<char>)
    ensures
        out@ == current_open(),
{
    vec!['[', '[', 's', 'p', 'a', 'n', ' ', 'c', 'l', 'a', 's', 's', '=', '"', 'c', 'u', 'r', 'r', 'e', 'n', 't', '"', ']', ']']
}

/// Where CountPages writes the number of pages.
pub open spec fn total_token() -> Seq<char> {
    seq!['%', '%', 't', 'o', 't', 'a', 'l', '%', '%']
}

pub fn total_token_chars() -> (out: Vec<char>)
    ensures
        out@ == total_token(),
{
    vec!['%', '%', 't', 'o', 't', 'a', 'l', '%', '%']
}


// ---------------------------------------------------------------- errors

/// How a module kind is named in an error, as `Debug` writes it.
pub open spec fn kind_label(kind: ModuleKind) -> Seq<char> {
    match kind {
        ModuleKind::ListPages => list_pages_label(),
        ModuleKind::CountPages => count_pages_label(),
    }
}

/// The block shown to readers in place of a module whose arguments are wrong.
pub open spec fn error_block_spec(kind: ModuleKind, message: Seq<char>) -> Seq<char> {
    error_open() + kind_label(kind) + error_middle() + message + error_close()
}

pub fn error_block(kind: ModuleKind, message: &str) -> (out: String)
    ensures
        out@ == error_block_spec(kind, message@),
{
    let mut out = error_open_chars();
    match kind {
        ModuleKind::ListPages => push_all(&mut out, &list_pages_label_chars()),
        ModuleKind::CountPages => push_all(&mut out, &count_pages_label_chars()),
    }
    push_all(&mut out, &error_middle_chars());
    push_all(&mut out, &str_chars(message));
    push_all(&mut out, &error_close_chars());
    string_from_chars(&out)
}

// ---------------------------------------------------------------- items

/// `lines` joined with newlines.
pub open spec fn join_lines(lines: Seq<Seq<char>>) -> Seq<char>
    decreases lines.len(),
{
    if lines.len() == 0 {
        seq![]
    } else if lines.len() == 1 {
        lines[0]
    } else {
        join_lines(lines.drop_last()) + seq!['\n'] + lines.last()
    }
}

pub open spec fn optional_line(line: Option<Seq<char>>) -> Seq<Seq<char>> {
    match line {
        Some(l) => seq![l],
        None => seq![],
    }
}

pub open spec fn wrap_item(item: Seq<char>) -> Seq<char> {
    item_open() + item + item_close()
}

/// The lines of a listing: each separated item in its own block, or the joined
/// items between the prepend and append lines.
pub open spec fn item_lines(selection: SelectionView, items: Seq<Seq<char>>) -> Seq<Seq<char>> {
    if selection.separate {
        items.map_values(|item: Seq<char>| wrap_item(item))
    } else {
        optional_line(selection.prepend_line) + items + optional_line(selection.append_line)
    }
}

/// Where `s[..j]` ends once trailing backslashes are dropped.
pub open spec fn trim_backslashes_at(s: Seq<char>, j: int) -> int
    decreases j,
{
    if 0 < j && j <= s.len() && s[j - 1] == '\\' {
        trim_backslashes_at(s, j - 1)
    } else {
        j
    }
}

/// Where the content of a listing ends: trailing whitespace, then trailing
/// line continuations, then whitespace again are dropped.
pub open spec fn content_end(c: Seq<char>) -> int {
    trim_end_at(c, trim_backslashes_at(c, trim_end_at(c, c.len() as int)))
}

/// The wikitext of a listing of `items` with navigation `pager`; nothing when
/// there are no items.
pub open spec fn layout_items_spec(selection: SelectionView, items: Seq<Seq<char>>, pager: Seq<char>) -> Seq<char> {
    if items.len() == 0 {
        seq![]
    } else {
        let c = join_lines(item_lines(selection, items));
        box_open() + c.subrange(0, content_end(c)) + seq!['\n'] + pager + box_close()
    }
}

proof fn lemma_trim_backslashes_bounds(s: Seq<char>, j: int)
    requires
        0 <= j <= s.len(),
    ensures
        0 <= trim_backslashes_at(s, j) <= j,
    decreases j,
{
    if 0 < j && s[j - 1] == '\\' {
        lemma_trim_backslashes_bounds(s, j - 1);
    }
}

fn chars_trim_backslashes_at(s: &[char], j: usize) -> (out: usize)
    requires
        j <= s.len(),
    ensures
        out == trim_backslashes_at(s@, j as int),
{
    let mut k = j;
    while k > 0 && s[k - 1] == '\\'
        invariant
            k <= j <= s.len(),
            trim_backslashes_at(s@, k as int) == trim_backslashes_at(s@, j as int),
        decreases k,
    {
        k = k - 1;
    }
    k
}

fn join_into(out: &mut Vec<char>, lines: &Vec<Vec<char>>)
    ensures
        final(out)@ == old(out)@ + join_lines(lines@.map_values(|l: Vec<char>| l@)),
{
    let ghost views = lines@.map_values(|l: Vec<char>| l@);
    let ghost start = out@;
    let mut i: usize = 0;
    while i < lines.len()
        invariant
            i <= lines.len(),
            views == lines@.map_values(|l: Vec<char>| l@),
            out@ == start + join_lines(views.take(i as int)),
        decreases lines.len() - i,
    {
        assert(views.take(i as int + 1).drop_last() =~= views.take(i as int));
        if i > 0 {
            out.push('\n');
        }
        push_all(out, &lines[i]);
        proof {
            if i == 0 {
                assert(views.take(1) =~= seq![views[0]]);
            }
        }
        i = i + 1;
    }
    assert(views.take(lines.len() as int) =~= views);
}

fn item_lines_vec(selection: &Selection, items: &[String]) -> (out: Vec<Vec<char>>)
    ensures
        out@.map_values(|l: Vec<char>| l@) == item_lines(selection@, strings_view(items@)),
{
    let ghost iv = strings_view(items@);
    let mut out: Vec<Vec<char>> = Vec::new();
    if selection.separate {
        let mut i: usize = 0;
        while i < items.len()
            invariant
                i <= items.len(),
                iv == strings_view(items@),
                out@.map_values(|l: Vec<char>| l@) == iv.take(i as int).map_values(|item: Seq<char>| wrap_item(item)),
            decreases items.len() - i,
        {
            let mut line = item_open_chars();
            push_all(&mut line, &str_chars(items[i].as_str()));
            push_all(&mut line, &item_close_chars());
            let ghost before = out@.map_values(|l: Vec<char>| l@);
            out.push(line);
            assert(out@.map_values(|l: Vec<char>| l@) =~= before.push(wrap_item(iv[i as int])));
            assert(iv.take(i as int + 1).map_values(|item: Seq<char>| wrap_item(item))
                =~= iv.take(i as int).map_values(|item: Seq<char>| wrap_item(item)).push(wrap_item(iv[i as int])));
            i = i + 1;
        }
        assert(iv.take(items.len() as int) =~= iv);
    } else {
        let ghost pre = optional_line(selection@.prepend_line);
        match &selection.prepend_line {
            Some(line) => out.push(str_chars(line.as_str())),
            None => {},
        }
        assert(out@.map_values(|l: Vec<char>| l@) =~= pre);
        let mut i: usize = 0;
        while i < items.len()
            invariant
                i <= items.len(),
                iv == strings_view(items@),
                out@.map_values(|l: Vec<char>| l@) == pre + iv.take(i as int),
            decreases items.len() - i,
        {
            let ghost before = out@.map_values(|l: Vec<char>| l@);
            out.push(str_chars(items[i].as_str()));
            assert(out@.map_values(|l: Vec<char>| l@) =~= before.push(iv[i as int]));
            assert(pre + iv.take(i as int + 1) =~= (pre + iv.take(i as int)).push(iv[i as int]));
            i = i + 1;
        }
        assert(iv.take(items.len() as int) =~= iv);
        let ghost mid = out@.map_values(|l: Vec<char>| l@);
        match &selection.append_line {
            Some(line) => out.push(str_chars(line.as_str())),
            None => {},
        }
        assert(out@.map_values(|l: Vec<char>| l@) =~= mid + optional_line(selection@.append_line));
    }
    out
}

/// Wikidot joins unseparated items into one wikitext block; separated items
/// are distinct blocks.
pub fn layout_items(selection: &Selection, items: &[String], pager: &str) -> (out: String)
    ensures
        out@ == layout_items_spec(selection@, strings_view(items@), pager@),
{
    if items.len() == 0 {
        return String::new();
    }
    let lines = item_lines_vec(selection, items);
    let mut content: Vec<char> = Vec::new();
    join_into(&mut content, &lines);
    assert(content@ =~= join_lines(item_lines(selection@, strings_view(items@))));
    let e1 = chars_trim_end_at(&content, content.len());
    proof { lemma_trim_end_bounds(content@, content.len() as int); }
    let e2 = chars_trim_backslashes_at(&content, e1);
    proof { lemma_trim_backslashes_bounds(content@, e1 as int); }
    let e3 = chars_trim_end_at(&content, e2);
    proof { lemma_trim_end_bounds(content@, e2 as int); }
    let mut out = box_open_chars();
    push_sub(&mut out, &content, 0, e3);
    out.push('\n');
    push_all(&mut out, &str_chars(pager));
    push_all(&mut out, &box_close_chars());
    string_from_chars(&out)
}

// ---------------------------------------------------------------- pager

/// Whether page `page` gets a number in the navigation: the first two, the
/// last two, and those within two of the current page.
pub open spec fn shown(page: int, current: int, count: int) -> bool {
    page <= 2 || page + 1 >= count || (page - current <= 2 && current - page <= 2)
}

pub open spec fn page_link(fullname: Seq<char>, page: nat, label: Seq<char>) -> Seq<char> {
    target_open() + fullname + page_path() + decimal(page) + seq![' '] + label + link_close()
}

pub open spec fn page_entry(fullname: Seq<char>, page: nat, current: nat) -> Seq<char> {
    if page == current {
        current_open() + decimal(page) + span_close()
    } else {
        page_link(fullname, page, decimal(page))
    }
}

/// The numbered entries from `page` on, `prev` being the last number shown.
pub open spec fn pages_from(fullname: Seq<char>, current: nat, count: nat, page: nat, prev: nat) -> Seq<char>
    decreases count + 1 - page,
{
    if page > count {
        seq![]
    } else if shown(page as int, current as int, count as int) {
        (if page > prev + 1 { dots() } else { seq![] }) + page_entry(fullname, page, current)
            + pages_from(fullname, current, count, page + 1, page)
    } else {
        pages_from(fullname, current, count, page + 1, prev)
    }
}

/// Wikidot's page navigation for page `current` of `count`; nothing for a
/// single page.
pub open spec fn pager_spec(fullname: Seq<char>, current: nat, count: nat) -> Seq<char> {
    if count <= 1 {
        seq![]
    } else {
        pager_open() + pager_no_open() + decimal(current) + of_word() + decimal(count) + span_close()
            + (if current > 1 { page_link(fullname, (current - 1) as nat, previous_label()) } else { seq![] })
            + pages_from(fullname, current, count, 1, 0)
            + (if current < count { page_link(fullname, (current + 1) as nat, next_label()) } else { seq![] })
            + pager_close()
    }
}

fn push_link(out: &mut Vec<char>, fullname: &[char], page: usize, label: &[char])
    ensures
        final(out)@ == old(out)@ + page_link(fullname@, page as nat, label@),
{
    push_all(out, &target_open_chars());
    push_all(out, fullname);
    push_all(out, &page_path_chars());
    push_decimal_usize(out, page);
    out.push(' ');
    push_all(out, label);
    push_all(out, &link_close_chars());
}

fn push_entry(out: &mut Vec<char>, fullname: &[char], page: usize, current: usize)
    ensures
        final(out)@ == old(out)@ + page_entry(fullname@, page as nat, current as nat),
{
    if page == current {
        push_all(out, &current_open_chars());
        push_decimal_usize(out, page);
        push_all(out, &span_close_chars());
    } else {
        let mut label: Vec<char> = Vec::new();
        push_decimal_usize(&mut label, page);
        assert(label@ =~= decimal(page as nat));
        push_link(out, fullname, page, &label);
    }
}

/// Wikidot's page navigation: pages 1–2, the current page ±2 and the last two,
/// with `...` over gaps; every module on the page follows the page's `/p/N`.
pub fn pager(fullname: &str, current: usize, page_count: usize) -> (out: String)
    requires
        page_count < usize::MAX,
    ensures
        out@ == pager_spec(fullname@, current as nat, page_count as nat),
{
    if page_count <= 1 {
        return String::new();
    }
    let name = str_chars(fullname);
    let mut out = pager_open_chars();
    push_all(&mut out, &pager_no_open_chars());
    push_decimal_usize(&mut out, current);
    push_all(&mut out, &of_word_chars());
    push_decimal_usize(&mut out, page_count);
    push_all(&mut out, &span_close_chars());
    if current > 1 {
        push_link(&mut out, &name, current - 1, &previous_label_chars());
    }
    let ghost head = out@;
    let ghost all = pages_from(name@, current as nat, page_count as nat, 1, 0);
    let mut page: usize = 1;
    let mut prev: usize = 0;
    while page <= page_count
        invariant
            1 <= page <= page_count + 1,
            page_count < usize::MAX,
            prev < page,
            all == pages_from(name@, current as nat, page_count as nat, 1, 0),
            out@ + pages_from(name@, current as nat, page_count as nat, page as nat, prev as nat) == head + all,
        decreases page_count + 1 - page,
    {
        let ghost rest = pages_from(name@, current as nat, page_count as nat, page as nat + 1, page as nat);
        let ghost before = out@;
        let near = if page >= current { page - current <= 2 } else { current - page <= 2 };
        if page <= 2 || page + 1 >= page_count || near {
            let ghost gap: Seq<char> = if page > prev + 1 { dots() } else { seq![] };
            if page > prev + 1 {
                push_all(&mut out, &dots_chars());
            }
            assert(out@ == before + gap);
            push_entry(&mut out, &name, page, current);
            assert(before + (gap + page_entry(name@, page as nat, current as nat) + rest)
                =~= out@ + rest);
            prev = page;
        }
        page = page + 1;
    }
    assert(out@ =~= head + all);
    if current < page_count {
        push_link(&mut out, &name, current + 1, &next_label_chars());
    }
    push_all(&mut out, &pager_close_chars());
    string_from_chars(&out)
}

// ---------------------------------------------------------------- totals

pub open spec fn is_line_break(c: char) -> bool {
    c == '\n' || c == '\r'
}

pub open spec fn skip_line_breaks(s: Seq<char>, i: int) -> int
    decreases s.len() - i,
{
    if 0 <= i < s.len() && is_line_break(s[i]) {
        skip_line_breaks(s, i + 1)
    } else {
        i
    }
}

pub open spec fn trim_line_breaks_end(s: Seq<char>, lo: int, j: int) -> int
    decreases j,
{
    if 0 < j && lo < j && j <= s.len() && is_line_break(s[j - 1]) {
        trim_line_breaks_end(s, lo, j - 1)
    } else {
        j
    }
}

/// `s` without line breaks at either end, as `trim_matches` leaves it.
pub open spec fn trim_line_breaks(s: Seq<char>) -> Seq<char> {
    let a = skip_line_breaks(s, 0);
    s.subrange(a, trim_line_breaks_end(s, a, s.len() as int))
}

/// `s[i..]` with every occurrence of `pat` replaced by `rep`, left to right.
pub open spec fn replace_from(s: Seq<char>, pat: Seq<char>, rep: Seq<char>, i: int) -> Seq<char>
    decreases s.len() - i,
{
    match find_from(s, pat, i) {
        Some(j) => if 0 <= i <= j && j + pat.len() <= s.len() && pat.len() > 0 {
            s.subrange(i, j) + rep + replace_from(s, pat, rep, j + pat.len())
        } else {
            s.subrange(i, s.len() as int)
        },
        None => s.subrange(i, s.len() as int),
    }
}

/// `str::replace`: `s` with every occurrence of `pat` replaced by `rep`.
pub open spec fn replace_all(s: Seq<char>, pat: Seq<char>, rep: Seq<char>) -> Seq<char> {
    replace_from(s, pat, rep, 0)
}

/// A CountPages module: its body with the total filled in, boxed like a listing.
pub open spec fn layout_total_spec(body: Seq<char>, total: nat) -> Seq<char> {
    box_open() + replace_all(trim_line_breaks(body), total_token(), decimal(total)) + seq!['\n'] + box_close()
}

proof fn lemma_skip_line_breaks_bounds(s: Seq<char>, i: int)
    requires
        0 <= i <= s.len(),
    ensures
        i <= skip_line_breaks(s, i) <= s.len(),
    decreases s.len() - i,
{
    if i < s.len() && is_line_break(s[i]) {
        lemma_skip_line_breaks_bounds(s, i + 1);
    }
}

proof fn lemma_trim_line_breaks_end_bounds(s: Seq<char>, lo: int, j: int)
    requires
        0 <= lo <= j <= s.len(),
    ensures
        lo <= trim_line_breaks_end(s, lo, j) <= j,
    decreases j,
{
    if lo < j && is_line_break(s[j - 1]) {
        lemma_trim_line_breaks_end_bounds(s, lo, j - 1);
    }
}

pub fn chars_trim_line_breaks(s: &[char]) -> (out: Vec<char>)
    ensures
        out@ == trim_line_breaks(s@),
{
    let mut a: usize = 0;
    while a < s.len() && (s[a] == '\n' || s[a] == '\r')
        invariant
            a <= s.len(),
            skip_line_breaks(s@, a as int) == skip_line_breaks(s@, 0),
        decreases s.len() - a,
    {
        a = a + 1;
    }
    let mut b: usize = s.len();
    while a < b && (s[b - 1] == '\n' || s[b - 1] == '\r')
        invariant
            a <= b <= s.len(),
            a == skip_line_breaks(s@, 0),
            trim_line_breaks_end(s@, a as int, b as int) == trim_line_breaks_end(s@, a as int, s.len() as int),
        decreases b,
    {
        b = b - 1;
    }
    chars_sub(s, a, b)
}

/// `str::replace` on characters.
pub fn chars_replace_all(s: &[char], pat: &[char], rep: &[char]) -> (out: Vec<char>)
    requires
        pat.len() > 0,
    ensures
        out@ == replace_all(s@, pat@, rep@),
{
    let mut out: Vec<char> = Vec::new();
    let mut i: usize = 0;
    loop
        invariant
            i <= s.len(),
            pat.len() > 0,
            out@ + replace_from(s@, pat@, rep@, i as int) == replace_all(s@, pat@, rep@),
        decreases s.len() - i,
    {
        proof { lemma_find_from_bounds(s@, pat@, i as int); }
        let ghost before = out@;
        match chars_find_from(s, pat, i) {
            Some(j) => {
                push_sub(&mut out, s, i, j);
                push_all(&mut out, rep);
                assert(before + replace_from(s@, pat@, rep@, i as int)
                    =~= out@ + replace_from(s@, pat@, rep@, (j + pat.len()) as int));
                i = j + pat.len();
            },
            None => {
                push_sub(&mut out, s, i, s.len());
                assert(out@ =~= before + replace_from(s@, pat@, rep@, i as int));
                return out;
            },
        }
    }
}

/// Wikidot fills `%%total%%` in the module body and boxes it like a listing.
pub fn layout_total(body: &str, total: usize) -> (out: String)
    ensures
        out@ == layout_total_spec(body@, total as nat),
{
    let trimmed = chars_trim_line_breaks(&str_chars(body));
    let mut count: Vec<char> = Vec::new();
    push_decimal_usize(&mut count, total);
    let filled = chars_replace_all(&trimmed, &total_token_chars(), &count);
    let mut out = box_open_chars();
    push_all(&mut out, &filled);
    out.push('\n');
    push_all(&mut out, &box_close_chars());
    string_from_chars(&out)
}

} // verus!
