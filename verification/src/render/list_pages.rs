//! Wikidot `[[module ListPages]]` and `[[module CountPages]]` expansion into ordinary
//! wikitext before FTML parsing: finding the modules, reading their arguments,
//! and laying out the items they list. Positions that its public functions take and return are byte offsets, as `str` counts them; the specs index characters.

use crate::search::utf8_len;
use crate::text::{byte_offset, byte_offset_of, char_at_byte, char_index_at, is_boundary, char_is_ws, chars_eq, chars_find_from, chars_lower_ascii, chars_match_at, chars_parse_i64, chars_parse_usize, chars_skip_non_ws, chars_skip_ws, chars_sub, chars_trim, chars_words, find_from, is_ascii_alnum, is_ws, lemma_find_from_bounds, lemma_skip_bounds, lower_ascii_seq, matches_at, parse_i64, parse_usize, push_all, skip_non_ws, skip_ws, str_chars, string_from_chars, trim, words};
use vstd::prelude::*;

verus! {

/// Opens a module, in lowercase.
pub open spec fn module_open() -> Seq<char> {
    seq!['[', '[', 'm', 'o', 'd', 'u', 'l', 'e']
}

pub fn module_open_chars() -> (out: Vec<char>)
    ensures
        out@ == module_open(),
{
    vec!['[', '[', 'm', 'o', 'd', 'u', 'l', 'e']
}

/// Closes a module, in lowercase.
pub open spec fn module_close() -> Seq<char> {
    seq!['[', '[', '/', 'm', 'o', 'd', 'u', 'l', 'e', ']', ']']
}

pub fn module_close_chars() -> (out: Vec<char>)
    ensures
        out@ == module_close(),
{
    vec!['[', '[', '/', 'm', 'o', 'd', 'u', 'l', 'e', ']', ']']
}

/// The ListPages module name, in lowercase.
pub open spec fn list_pages_name() -> Seq<char> {
    seq!['l', 'i', 's', 't', 'p', 'a', 'g', 'e', 's']
}

pub fn list_pages_name_chars() -> (out: Vec<char>)
    ensures
        out@ == list_pages_name(),
{
    vec!['l', 'i', 's', 't', 'p', 'a', 'g', 'e', 's']
}

/// The CountPages module name, in lowercase.
pub open spec fn count_pages_name() -> Seq<char> {
    seq!['c', 'o', 'u', 'n', 't', 'p', 'a', 'g', 'e', 's']
}

pub fn count_pages_name_chars() -> (out: Vec<char>)
    ensures
        out@ == count_pages_name(),
{
    vec!['c', 'o', 'u', 'n', 't', 'p', 'a', 'g', 'e', 's']
}

#[derive(Debug, PartialEq, Eq, Structural, Clone, Copy)]
pub enum ModuleKind {
    ListPages,
    CountPages,
}

pub open spec fn module_name(kind: ModuleKind) -> Seq<char> {
    match kind {
        ModuleKind::ListPages => list_pages_name(),
        ModuleKind::CountPages => count_pages_name(),
    }
}

/// `name` starts at `n` and is followed by whitespace or `]`.
pub open spec fn name_follows(lower: Seq<char>, n: int, name: Seq<char>) -> bool {
    matches_at(lower, n, name) && n + name.len() < lower.len()
        && (is_ws(lower[n + name.len()]) || lower[n + name.len()] == ']')
}

/// The ListPages/CountPages module named after a `[[module` opening that ends at
/// `name_start`: whitespace, then the name, then whitespace or `]`.
pub open spec fn module_at_spec(lower: Seq<char>, name_start: int) -> Option<ModuleKind> {
    if !(0 <= name_start < lower.len() && is_ws(lower[name_start])) {
        None
    } else {
        let n = skip_ws(lower, name_start);
        if name_follows(lower, n, list_pages_name()) {
            Some(ModuleKind::ListPages)
        } else if name_follows(lower, n, count_pages_name()) {
            Some(ModuleKind::CountPages)
        } else {
            None
        }
    }
}

/// The first `]]` at or after `i` outside a double-quoted value.
pub open spec fn header_end_from(s: Seq<char>, i: int, quoted: bool) -> Option<int>
    decreases s.len() - i,
{
    if i < 0 || i >= s.len() {
        None
    } else if s[i] == '"' {
        header_end_from(s, i + 1, !quoted)
    } else if s[i] == ']' && !quoted && i + 1 < s.len() && s[i + 1] == ']' {
        Some(i)
    } else {
        header_end_from(s, i + 1, quoted)
    }
}

/// The first `[[module` in `lower[k..close]` that opens a ListPages/CountPages module.
pub open spec fn first_module_open(lower: Seq<char>, k: int, close: int) -> Option<int>
    decreases close - k,
{
    if k < 0 || k + 8 > close {
        None
    } else if matches_at(lower, k, module_open()) && module_at_spec(lower, k + 8) is Some {
        Some(k)
    } else {
        first_module_open(lower, k + 1, close)
    }
}

/// The `[[/module]]` closing a body that continues at `offset` inside `depth`
/// nested ListPages/CountPages modules.
pub open spec fn matching_close(lower: Seq<char>, offset: int, depth: nat) -> Option<int>
    decreases lower.len() - offset,
{
    match find_from(lower, module_close(), offset) {
        None => None,
        Some(close) => match first_module_open(lower, offset, close) {
            Some(open) => if offset < open + 8 <= lower.len() {
                matching_close(lower, open + 8, depth + 1)
            } else {
                None
            },
            None => if depth == 0 {
                Some(close)
            } else if offset < close + 11 <= lower.len() {
                matching_close(lower, close + 11, (depth - 1) as nat)
            } else {
                None
            },
        },
    }
}

/// One module occurrence: its whole source range, header text, and item template.
pub ghost struct BlockView {
    pub kind: ModuleKind,
    pub start: int,
    pub end: int,
    pub header: Seq<char>,
    pub body: Seq<char>,
    pub body_start: int,
    pub body_end: int,
}

/// The first terminated module at or after `search`.
pub open spec fn next_block_from(source: Seq<char>, lower: Seq<char>, search: int) -> Option<BlockView>
    decreases lower.len() - search,
{
    match find_from(lower, module_open(), search) {
        None => None,
        Some(start) => {
            let name_start = start + 8;
            match module_at_spec(lower, name_start) {
                None => if search < name_start <= lower.len() {
                    next_block_from(source, lower, name_start)
                } else {
                    None
                },
                Some(kind) => {
                    let header_start = skip_ws(lower, name_start) + module_name(kind).len();
                    match header_end_from(source, header_start, false) {
                        None => None,
                        Some(header_end) => {
                            let body_start = header_end + 2;
                            match matching_close(lower, body_start, 0) {
                                None => None,
                                Some(body_end) => Some(BlockView {
                                    kind,
                                    start,
                                    end: body_end + 11,
                                    header: source.subrange(header_start, header_end),
                                    body: source.subrange(body_start, body_end),
                                    body_start,
                                    body_end,
                                }),
                            }
                        },
                    }
                },
            }
        },
    }
}

/// Every terminated module from `offset` on, each search resuming after the last.
pub open spec fn blocks_from(source: Seq<char>, lower: Seq<char>, offset: int) -> Seq<BlockView>
    decreases lower.len() - offset,
{
    match next_block_from(source, lower, offset) {
        None => seq![],
        Some(b) => if offset < b.end <= lower.len() {
            seq![b] + blocks_from(source, lower, b.end)
        } else {
            seq![]
        },
    }
}

/// The ListPages/CountPages modules of `source`.
pub open spec fn blocks_of(source: Seq<char>) -> Seq<BlockView> {
    blocks_from(source, lower_ascii_seq(source), 0)
}

/// One module occurrence: its whole source range, header text, and item template.
#[derive(Debug)]
pub struct ListPagesBlock {
    pub kind: ModuleKind,
    pub range: std::ops::Range<usize>,
    pub header: String,
    pub body: String,
    pub body_range: std::ops::Range<usize>,
}

pub open spec fn block_is(b: ListPagesBlock, v: BlockView) -> bool {
    &&& b.kind == v.kind
    &&& b.range.start == v.start
    &&& b.range.end == v.end
    &&& b.header@ == v.header
    &&& b.body@ == v.body
    &&& b.body_range.start == v.body_start
    &&& b.body_range.end == v.body_end
}

fn name_follows_chars(lower: &[char], n: usize, name: &[char]) -> (out: bool)
    ensures
        out == name_follows(lower@, n as int, name@),
{
    if !chars_match_at(lower, n, name) {
        return false;
    }
    assert(lower@.len() == lower.len());
    let k = n + name.len();
    if k >= lower.len() {
        return false;
    }
    char_is_ws(lower[k]) || lower[k] == ']'
}

fn module_at_chars(lower: &[char], name_start: usize) -> (out: Option<ModuleKind>)
    ensures
        out == module_at_spec(lower@, name_start as int),
{
    if !(name_start < lower.len() && char_is_ws(lower[name_start])) {
        return None;
    }
    let n = chars_skip_ws(lower, name_start);
    if name_follows_chars(lower, n, &list_pages_name_chars()) {
        Some(ModuleKind::ListPages)
    } else if name_follows_chars(lower, n, &count_pages_name_chars()) {
        Some(ModuleKind::CountPages)
    } else {
        None
    }
}

/// The ListPages/CountPages module named after a `[[module` opening, if any.
/// The ListPages/CountPages module named after a `[[module` opening whose
/// name starts at byte `name_start` of `lower`, if any, with the module's
/// name.
pub fn module_at(lower: &str, name_start: usize) -> (out: Option<(String, ModuleKind)>)
    requires
        utf8_len(lower@) <= usize::MAX,
        is_boundary(lower@, name_start as int),
    ensures
        match module_at_spec(lower@, char_at_byte(lower@, name_start as int)) {
            Some(kind) => out matches Some((name, k)) && k == kind
                && name@ == (if kind == ModuleKind::ListPages { list_pages_name() } else { count_pages_name() }),
            None => out is None,
        },
{
    let l = str_chars(lower);
    let k = match char_index_at(&l, name_start) {
        Some(k) => k,
        None => return None,
    };
    match module_at_chars(&l, k) {
        Some(ModuleKind::ListPages) => Some((string_from_chars(&list_pages_name_chars()), ModuleKind::ListPages)),
        Some(ModuleKind::CountPages) => Some((string_from_chars(&count_pages_name_chars()), ModuleKind::CountPages)),
        None => None,
    }
}

fn header_end_chars(s: &[char], from: usize) -> (out: Option<usize>)
    ensures
        out matches Some(e) ==> header_end_from(s@, from as int, false) == Some(e as int),
        out is None ==> header_end_from(s@, from as int, false) is None,
{
    let mut quoted = false;
    let mut i = from;
    while i < s.len()
        invariant
            from <= i,
            header_end_from(s@, from as int, false) == header_end_from(s@, i as int, quoted),
        decreases s.len() - i,
    {
        if s[i] == '"' {
            quoted = !quoted;
        } else if s[i] == ']' && !quoted && i + 1 < s.len() && s[i + 1] == ']' {
            return Some(i);
        }
        i += 1;
    }
    None
}

/// The first `]]` outside a double-quoted value; quoted values may contain `]]`.
pub fn find_header_end(header: &str) -> (out: Option<usize>)
    requires
        utf8_len(header@) <= usize::MAX,
    ensures
        match header_end_from(header@, 0, false) {
            Some(e) => out == Some(byte_offset(header@, e) as usize),
            None => out is None,
        },
{
    let h = str_chars(header);
    match header_end_chars(&h, 0) {
        Some(e) => {
            proof { lemma_header_end_bounds(h@, 0, false); }
            Some(byte_offset_of(&h, e))
        },
        None => None,
    }
}

proof fn lemma_first_open_bounds(lower: Seq<char>, k: int, close: int)
    ensures
        first_module_open(lower, k, close) matches Some(o) ==> k <= o && o + 8 <= close
            && matches_at(lower, o, module_open()) && module_at_spec(lower, o + 8) is Some,
    decreases close - k,
{
    if !(k < 0 || k + 8 > close) && !(matches_at(lower, k, module_open()) && module_at_spec(lower, k + 8) is Some) {
        lemma_first_open_bounds(lower, k + 1, close);
    }
}

fn first_open_chars(lower: &[char], from: usize, close: usize) -> (out: Option<usize>)
    requires
        close <= lower@.len(),
    ensures
        out matches Some(o) ==> first_module_open(lower@, from as int, close as int) == Some(o as int),
        out is None ==> first_module_open(lower@, from as int, close as int) is None,
{
    let open = module_open_chars();
    let mut k = from;
    while k <= close && 8 <= close - k
        invariant
            from <= k,
            close <= lower@.len(),
            open@ == module_open(),
            first_module_open(lower@, from as int, close as int) == first_module_open(lower@, k as int, close as int),
        decreases close + 1 - k,
    {
        if chars_match_at(lower, k, &open) && module_at_chars(lower, k + 8).is_some() {
            return Some(k);
        }
        k += 1;
    }
    None
}

fn matching_close_chars(lower: &[char], body_start: usize) -> (out: Option<usize>)
    ensures
        out matches Some(e) ==> matching_close(lower@, body_start as int, 0) == Some(e as int),
        out is None ==> matching_close(lower@, body_start as int, 0) is None,
{
    let close_m = module_close_chars();
    let mut depth: usize = 0;
    let mut offset = body_start;
    loop
        invariant
            body_start <= offset,
            depth <= offset,
            lower@.len() == lower.len(),
            close_m@ == module_close(),
            matching_close(lower@, body_start as int, 0) == matching_close(lower@, offset as int, depth as nat),
        decreases lower@.len() - offset,
    {
        proof { lemma_find_from_bounds(lower@, close_m@, offset as int); }
        let close = match chars_find_from(lower, &close_m, offset) {
            Some(c) => c,
            None => return None,
        };
        proof { lemma_first_open_bounds(lower@, offset as int, close as int); }
        match first_open_chars(lower, offset, close) {
            Some(open) => {
                depth = depth + 1;
                offset = open + 8;
            },
            None => {
                if depth == 0 {
                    return Some(close);
                }
                depth = depth - 1;
                offset = close + 11;
            },
        }
    }
}

/// The `[[/module]]` closing a body starting at `body_start`, skipping the
/// bodies of nested ListPages/CountPages modules.
pub fn find_matching_close(lower: &str, body_start: usize) -> (out: Option<usize>)
    requires
        utf8_len(lower@) <= usize::MAX,
        is_boundary(lower@, body_start as int),
    ensures
        match matching_close(lower@, char_at_byte(lower@, body_start as int), 0) {
            Some(e) => out == Some(byte_offset(lower@, e) as usize),
            None => out is None,
        },
{
    let l = str_chars(lower);
    let k = match char_index_at(&l, body_start) {
        Some(k) => k,
        None => return None,
    };
    match matching_close_chars(&l, k) {
        Some(e) => {
            proof { lemma_matching_close_bounds(l@, k as int, 0); }
            Some(byte_offset_of(&l, e))
        },
        None => None,
    }
}

proof fn lemma_header_end_bounds(s: Seq<char>, i: int, quoted: bool)
    ensures
        header_end_from(s, i, quoted) matches Some(e) ==> i <= e && e + 2 <= s.len(),
    decreases s.len() - i,
{
    if i < 0 || i >= s.len() {
    } else if s[i] == '"' {
        lemma_header_end_bounds(s, i + 1, !quoted);
    } else if s[i] == ']' && !quoted && i + 1 < s.len() && s[i + 1] == ']' {
    } else {
        lemma_header_end_bounds(s, i + 1, quoted);
    }
}

proof fn lemma_matching_close_bounds(lower: Seq<char>, offset: int, depth: nat)
    requires
        0 <= offset,
    ensures
        matching_close(lower, offset, depth) matches Some(e) ==> offset <= e && e + 11 <= lower.len(),
    decreases lower.len() - offset,
{
    lemma_find_from_bounds(lower, module_close(), offset);
    match find_from(lower, module_close(), offset) {
        None => {},
        Some(close) => {
            lemma_first_open_bounds(lower, offset, close);
            match first_module_open(lower, offset, close) {
                Some(open) => if offset < open + 8 <= lower.len() {
                    lemma_matching_close_bounds(lower, open + 8, depth + 1);
                },
                None => if depth == 0 {
                } else if offset < close + 11 <= lower.len() {
                    lemma_matching_close_bounds(lower, close + 11, (depth - 1) as nat);
                },
            }
        },
    }
}

pub open spec fn block_in(b: BlockView, search: int, len: int) -> bool {
    &&& search <= b.start
    &&& b.start < b.body_start <= b.body_end
    &&& b.body_end + 11 == b.end
    &&& b.end <= len
}

proof fn lemma_next_block_bounds(source: Seq<char>, lower: Seq<char>, search: int)
    requires
        0 <= search,
        source.len() == lower.len(),
    ensures
        next_block_from(source, lower, search) matches Some(b) ==> block_in(b, search, lower.len() as int),
    decreases lower.len() - search,
{
    lemma_find_from_bounds(lower, module_open(), search);
    match find_from(lower, module_open(), search) {
        None => {},
        Some(start) => {
            let name_start = start + 8;
            match module_at_spec(lower, name_start) {
                None => if search < name_start <= lower.len() {
                    lemma_next_block_bounds(source, lower, name_start);
                },
                Some(kind) => {
                    lemma_skip_bounds(lower, name_start);
                    let header_start = skip_ws(lower, name_start) + module_name(kind).len();
                    lemma_header_end_bounds(source, header_start, false);
                    match header_end_from(source, header_start, false) {
                        None => {},
                        Some(header_end) => {
                            lemma_matching_close_bounds(lower, header_end + 2, 0);
                        },
                    }
                },
            }
        },
    }
}

fn next_block_chars(source: &[char], lower: &[char], from: usize) -> (out: Option<ListPagesBlock>)
    requires
        source@.len() == lower@.len(),
        from <= lower@.len(),
    ensures
        out matches Some(b) ==> next_block_from(source@, lower@, from as int) matches Some(v) && block_is(b, v),
        out is None ==> next_block_from(source@, lower@, from as int) is None,
{
    let open = module_open_chars();
    let mut search = from;
    loop
        invariant
            from <= search <= lower@.len(),
            lower@.len() == lower.len(),
            source@.len() == lower@.len(),
            open@ == module_open(),
            next_block_from(source@, lower@, from as int) == next_block_from(source@, lower@, search as int),
        decreases lower@.len() - search,
    {
        proof { lemma_find_from_bounds(lower@, open@, search as int); }
        let start = match chars_find_from(lower, &open, search) {
            Some(start) => start,
            None => return None,
        };
        let name_start = start + 8;
        let kind = match module_at_chars(lower, name_start) {
            Some(kind) => kind,
            None => {
                search = name_start;
                continue;
            },
        };
        let n = chars_skip_ws(lower, name_start);
        let name_len: usize = match kind {
            ModuleKind::ListPages => 9,
            ModuleKind::CountPages => 10,
        };
        let header_start = n + name_len;
        proof { lemma_header_end_bounds(source@, header_start as int, false); }
        let header_end = match header_end_chars(source, header_start) {
            Some(e) => e,
            None => return None,
        };
        let body_start = header_end + 2;
        proof { lemma_matching_close_bounds(lower@, body_start as int, 0); }
        let body_end = match matching_close_chars(lower, body_start) {
            Some(e) => e,
            None => return None,
        };
        let header = string_from_chars(&chars_sub(source, header_start, header_end));
        let body = string_from_chars(&chars_sub(source, body_start, body_end));
        return Some(ListPagesBlock {
            kind,
            range: std::ops::Range { start, end: body_end + 11 },
            header,
            body,
            body_range: std::ops::Range { start: body_start, end: body_end },
        });
    }
}

/// The first terminated ListPages/CountPages module at or after `from`, where
/// `lower` is the ASCII-lowercase copy of `source`.
pub fn next_block(source: &str, lower: &str, from: usize) -> (out: Option<ListPagesBlock>)
    requires
        source@.len() == lower@.len(),
        from <= lower@.len(),
    ensures
        out matches Some(b) ==> next_block_from(source@, lower@, from as int) matches Some(v) && block_is(b, v),
        out is None ==> next_block_from(source@, lower@, from as int) is None,
{
    next_block_chars(&str_chars(source), &str_chars(lower), from)
}

fn blocks_chars(source: &[char]) -> (out: Vec<ListPagesBlock>)
    ensures
        out@.len() == blocks_of(source@).len(),
        forall|i: int| 0 <= i < out@.len() ==> block_is(#[trigger] out@[i], blocks_of(source@)[i]),
{
    let lower = chars_lower_ascii(source);
    let ghost want = blocks_of(source@);
    let mut blocks: Vec<ListPagesBlock> = Vec::new();
    let mut offset: usize = 0;
    loop
        invariant
            offset <= lower@.len(),
            lower@ == lower_ascii_seq(source@),
            want == blocks_of(source@),
            blocks@.len() + blocks_from(source@, lower@, offset as int).len() == want.len(),
            forall|i: int| 0 <= i < blocks@.len() ==> block_is(#[trigger] blocks@[i], want[i]),
            forall|i: int| 0 <= i < blocks_from(source@, lower@, offset as int).len()
                ==> #[trigger] blocks_from(source@, lower@, offset as int)[i] == want[blocks@.len() + i],
        decreases lower@.len() - offset,
    {
        proof { lemma_next_block_bounds(source@, lower@, offset as int); }
        match next_block_chars(source, &lower, offset) {
            None => {
                return blocks;
            },
            Some(block) => {
                let ghost v = next_block_from(source@, lower@, offset as int).unwrap();
                let ghost rest = blocks_from(source@, lower@, v.end);
                assert(blocks_from(source@, lower@, offset as int) == seq![v] + rest);
                assert((seq![v] + rest)[0] == v);
                assert forall|i: int| 0 <= i < rest.len() implies #[trigger] rest[i] == want[blocks@.len() + 1 + i] by {
                    assert(rest[i] == (seq![v] + rest)[i + 1]);
                }
                offset = block.range.end;
                blocks.push(block);
            },
        }
    }
}

/// Where the search for the `k`-th module of `blocks` starts: after the one before it.
pub open spec fn block_search_start(blocks: Seq<BlockView>, offset: int, k: int) -> int {
    if k == 0 { offset } else { blocks[k - 1].end }
}

proof fn lemma_blocks_from_ordered(source: Seq<char>, lower: Seq<char>, offset: int)
    requires
        0 <= offset <= lower.len(),
        source.len() == lower.len(),
    ensures
        forall|k: int| 0 <= k < blocks_from(source, lower, offset).len() ==> block_in(
            #[trigger] blocks_from(source, lower, offset)[k],
            block_search_start(blocks_from(source, lower, offset), offset, k),
            lower.len() as int,
        ),
    decreases lower.len() - offset,
{
    lemma_next_block_bounds(source, lower, offset);
    match next_block_from(source, lower, offset) {
        None => {},
        Some(b) => if offset < b.end <= lower.len() {
            lemma_blocks_from_ordered(source, lower, b.end);
            let rest = blocks_from(source, lower, b.end);
            let all = blocks_from(source, lower, offset);
            assert(all == seq![b] + rest);
            assert forall|k: int| 0 <= k < all.len() implies block_in(
                #[trigger] all[k], block_search_start(all, offset, k), lower.len() as int) by {
                if k > 0 {
                    assert(all[k] == rest[k - 1]);
                    if k > 1 {
                        assert(all[k - 1] == rest[k - 2]);
                    }
                }
            }
        },
    }
}

/// The modules of `source` come in order, each after the one before.
pub proof fn lemma_blocks_ordered(source: Seq<char>)
    ensures
        forall|k: int| 0 <= k < blocks_of(source).len() ==> block_in(
            #[trigger] blocks_of(source)[k],
            block_search_start(blocks_of(source), 0, k),
            source.len() as int,
        ),
{
    lemma_blocks_from_ordered(source, lower_ascii_seq(source), 0);
}

/// The modules of `source` with their ranges in characters, as the
/// library splices text.
pub(crate) fn blocks_in_chars(source: &str) -> (out: Vec<ListPagesBlock>)
    ensures
        out@.len() == blocks_of(source@).len(),
        forall|i: int| 0 <= i < out@.len() ==> block_is(#[trigger] out@[i], blocks_of(source@)[i]),
{
    blocks_chars(&str_chars(source))
}

/// A module found in `source`, with its ranges as byte offsets.
pub open spec fn block_bytes(b: ListPagesBlock, v: BlockView, source: Seq<char>) -> bool {
    &&& b.kind == v.kind
    &&& b.range.start == byte_offset(source, v.start)
    &&& b.range.end == byte_offset(source, v.end)
    &&& b.header@ == v.header
    &&& b.body@ == v.body
    &&& b.body_range.start == byte_offset(source, v.body_start)
    &&& b.body_range.end == byte_offset(source, v.body_end)
}

/// Find every terminated ListPages/CountPages module, with its ranges as
/// byte offsets of `source`. Unterminated modules remain ordinary text.
pub fn list_pages_blocks(source: &str) -> (out: Vec<ListPagesBlock>)
    requires
        utf8_len(source@) <= usize::MAX,
    ensures
        out@.len() == blocks_of(source@).len(),
        forall|i: int| 0 <= i < out@.len() ==> block_bytes(#[trigger] out@[i], blocks_of(source@)[i], source@),
{
    let s = str_chars(source);
    let blocks = blocks_chars(&s);
    proof { lemma_blocks_ordered(source@); }
    let mut out: Vec<ListPagesBlock> = Vec::new();
    let mut i: usize = 0;
    while i < blocks.len()
        invariant
            i <= blocks@.len(),
            s@ == source@,
            utf8_len(source@) <= usize::MAX,
            blocks@.len() == blocks_of(source@).len(),
            forall|k: int| 0 <= k < blocks@.len() ==> block_is(#[trigger] blocks@[k], blocks_of(source@)[k]),
            forall|k: int| 0 <= k < blocks_of(source@).len() ==> block_in(
                #[trigger] blocks_of(source@)[k], block_search_start(blocks_of(source@), 0, k), source@.len() as int),
            out@.len() == i,
            forall|k: int| 0 <= k < i ==> block_bytes(#[trigger] out@[k], blocks_of(source@)[k], source@),
        decreases blocks@.len() - i,
    {
        let b = &blocks[i];
        assert(block_is(blocks@[i as int], blocks_of(source@)[i as int]));
        assert(block_in(blocks_of(source@)[i as int], block_search_start(blocks_of(source@), 0, i as int), source@.len() as int));
        let start = byte_offset_of(&s, b.range.start);
        let end = byte_offset_of(&s, b.range.end);
        let body_start = byte_offset_of(&s, b.body_range.start);
        let body_end = byte_offset_of(&s, b.body_range.end);
        out.push(ListPagesBlock {
            kind: b.kind,
            range: start..end,
            header: string_from_chars(&str_chars(b.header.as_str())),
            body: string_from_chars(&str_chars(b.body.as_str())),
            body_range: body_start..body_end,
        });
        i = i + 1;
    }
    out
}

/// The error for an argument without `key=`.
pub open spec fn malformed_message() -> Seq<char> {
    seq!['m', 'a', 'l', 'f', 'o', 'r', 'm', 'e', 'd', ' ', 'm', 'o', 'd', 'u', 'l', 'e', ' ', 'a', 'r', 'g', 'u', 'm', 'e', 'n', 't', 's']
}

pub fn malformed_message_chars() -> (out: Vec<char>)
    ensures
        out@ == malformed_message(),
{
    vec!['m', 'a', 'l', 'f', 'o', 'r', 'm', 'e', 'd', ' ', 'm', 'o', 'd', 'u', 'l', 'e', ' ', 'a', 'r', 'g', 'u', 'm', 'e', 'n', 't', 's']
}

/// The error for a quoted value without its closing quote.
pub open spec fn unterminated_message() -> Seq<char> {
    seq!['u', 'n', 't', 'e', 'r', 'm', 'i', 'n', 'a', 't', 'e', 'd', ' ', 'q', 'u', 'o', 't', 'e', 'd', ' ', 'a', 'r', 'g', 'u', 'm', 'e', 'n', 't']
}

pub fn unterminated_message_chars() -> (out: Vec<char>)
    ensures
        out@ == unterminated_message(),
{
    vec!['u', 'n', 't', 'e', 'r', 'm', 'i', 'n', 'a', 't', 'e', 'd', ' ', 'q', 'u', 'o', 't', 'e', 'd', ' ', 'a', 'r', 'g', 'u', 'm', 'e', 'n', 't']
}

/// Index of the first entry from `i` on whose key is `key`, or the length.
pub open spec fn attr_index(es: Seq<(Seq<char>, Seq<char>)>, key: Seq<char>, i: int) -> int
    decreases es.len() - i,
{
    if i < 0 || i >= es.len() {
        es.len() as int
    } else if es[i].0 == key {
        i
    } else {
        attr_index(es, key, i + 1)
    }
}

/// Sets `key` to `value`, keeping the position of an existing key.
pub open spec fn attr_insert(es: Seq<(Seq<char>, Seq<char>)>, key: Seq<char>, value: Seq<char>) -> Seq<(Seq<char>, Seq<char>)> {
    let i = attr_index(es, key, 0);
    if i < es.len() {
        es.update(i, (key, value))
    } else {
        es.push((key, value))
    }
}

/// The value stored for `key`.
pub open spec fn attr_get(es: Seq<(Seq<char>, Seq<char>)>, key: Seq<char>) -> Option<Seq<char>> {
    let i = attr_index(es, key, 0);
    if i < es.len() {
        Some(es[i].1)
    } else {
        None
    }
}

proof fn lemma_attr_index_bounds(es: Seq<(Seq<char>, Seq<char>)>, key: Seq<char>, i: int)
    requires
        0 <= i,
    ensures
        i <= attr_index(es, key, i) <= es.len() || attr_index(es, key, i) == es.len(),
        attr_index(es, key, i) < es.len() ==> es[attr_index(es, key, i)].0 == key,
        forall|k: int| i <= k < attr_index(es, key, i) ==> (#[trigger] es[k]).0 != key,
    decreases es.len() - i,
{
    if i < es.len() && es[i].0 != key {
        lemma_attr_index_bounds(es, key, i + 1);
    }
}

/// No key appears twice among the entries.
pub open spec fn distinct_keys(es: Seq<(Seq<char>, Seq<char>)>) -> bool {
    forall|i: int, j: int| 0 <= i < j < es.len() ==> (#[trigger] es[i]).0 != (#[trigger] es[j]).0
}

/// Setting a key keeps keys distinct: an existing key is overwritten in place.
proof fn lemma_attr_insert_distinct(es: Seq<(Seq<char>, Seq<char>)>, key: Seq<char>, value: Seq<char>)
    requires
        distinct_keys(es),
    ensures
        distinct_keys(attr_insert(es, key, value)),
        attr_get(attr_insert(es, key, value), key) == Some(value),
{
    lemma_attr_index_bounds(es, key, 0);
    let i = attr_index(es, key, 0);
    let out = attr_insert(es, key, value);
    if i < es.len() {
        assert forall|a: int, b: int| 0 <= a < b < out.len() implies (#[trigger] out[a]).0 != (#[trigger] out[b]).0 by {
            assert(es[a].0 != es[b].0);
            if a == i { assert(out[a].0 == es[i].0); }
            if b == i { assert(out[b].0 == es[i].0); }
        }
        lemma_attr_index_bounds(out, key, 0);
        assert forall|k: int| 0 <= k < i implies (#[trigger] out[k]).0 != key by {
            assert(out[k] == es[k]);
        }
        assert(out[i].0 == key);
        lemma_attr_index_first(out, key, 0, i);
    } else {
        assert forall|a: int, b: int| 0 <= a < b < out.len() implies (#[trigger] out[a]).0 != (#[trigger] out[b]).0 by {
            if b == es.len() {
                assert(out[a] == es[a]);
                assert(es[a].0 != key);
            } else {
                assert(out[a] == es[a] && out[b] == es[b]);
            }
        }
        assert forall|k: int| 0 <= k < es.len() implies (#[trigger] out[k]).0 != key by {
            assert(out[k] == es[k]);
        }
        lemma_attr_index_first(out, key, 0, es.len() as int);
    }
}

/// `attr_index` from `i` finds `p` when the key is at `p` and not before.
proof fn lemma_attr_index_first(es: Seq<(Seq<char>, Seq<char>)>, key: Seq<char>, i: int, p: int)
    requires
        0 <= i <= p < es.len(),
        es[p].0 == key,
        forall|k: int| i <= k < p ==> (#[trigger] es[k]).0 != key,
    ensures
        attr_index(es, key, i) == p,
    decreases p - i,
{
    if i < p {
        lemma_attr_index_first(es, key, i + 1, p);
    }
}

/// The arguments parsed from `i` on have distinct keys when those before did.
proof fn lemma_attrs_from_distinct(h: Seq<char>, i: int, acc: Seq<(Seq<char>, Seq<char>)>)
    requires
        distinct_keys(acc),
    ensures
        attrs_from(h, i, acc) matches Ok(es) ==> distinct_keys(es),
    decreases h.len() - i,
{
    let j = skip_arg_sep(h, i);
    if 0 <= i <= j <= h.len() && j != h.len() {
        let k = skip_key(h, j);
        if j <= k < h.len() && h[k] == '=' && k != j {
            let key = lower_ascii_seq(h.subrange(j, k));
            let a = k + 1;
            if a < h.len() && h[a] == '"' {
                match find_from(h, seq!['"'], a + 1) {
                    None => {},
                    Some(q) => if i < q + 1 <= h.len() {
                        lemma_attr_insert_distinct(acc, key, h.subrange(a + 1, q));
                        lemma_attrs_from_distinct(h, q + 1, attr_insert(acc, key, h.subrange(a + 1, q)));
                    },
                }
            } else {
                let e = skip_non_ws(h, a);
                if i < e <= h.len() {
                    lemma_attr_insert_distinct(acc, key, h.subrange(a, e));
                    lemma_attrs_from_distinct(h, e, attr_insert(acc, key, h.subrange(a, e)));
                }
            }
        }
    }
}

/// Module arguments by lowercase key, in the order they first appear.
pub struct Attributes {
    pub entries: Vec<(String, String)>,
}

impl View for Attributes {
    type V = Seq<(Seq<char>, Seq<char>)>;

    open spec fn view(&self) -> Seq<(Seq<char>, Seq<char>)> {
        self.entries@.map_values(|e: (String, String)| (e.0@, e.1@))
    }
}

fn index_of_key(es: &Vec<(Vec<char>, Vec<char>)>, key: &[char]) -> (out: usize)
    ensures
        out == attr_index(es@.map_values(|e: (Vec<char>, Vec<char>)| (e.0@, e.1@)), key@, 0),
{
    let ghost m = es@.map_values(|e: (Vec<char>, Vec<char>)| (e.0@, e.1@));
    let mut i: usize = 0;
    while i < es.len()
        invariant
            i <= es.len(),
            m == es@.map_values(|e: (Vec<char>, Vec<char>)| (e.0@, e.1@)),
            attr_index(m, key@, 0) == attr_index(m, key@, i as int),
        decreases es.len() - i,
    {
        if chars_eq(&es[i].0, key) {
            return i;
        }
        i += 1;
    }
    i
}

fn insert_attr(es: &mut Vec<(Vec<char>, Vec<char>)>, key: Vec<char>, value: Vec<char>)
    ensures
        final(es)@.map_values(|e: (Vec<char>, Vec<char>)| (e.0@, e.1@))
            == attr_insert(old(es)@.map_values(|e: (Vec<char>, Vec<char>)| (e.0@, e.1@)), key@, value@),
{
    let ghost m = es@.map_values(|e: (Vec<char>, Vec<char>)| (e.0@, e.1@));
    let i = index_of_key(es, &key);
    proof { lemma_attr_index_bounds(m, key@, 0); }
    let ghost kv = key@;
    let ghost vv = value@;
    if i < es.len() {
        es.set(i, (key, value));
        assert(es@.map_values(|e: (Vec<char>, Vec<char>)| (e.0@, e.1@)) =~= m.update(i as int, (kv, vv)));
    } else {
        es.push((key, value));
        assert(es@.map_values(|e: (Vec<char>, Vec<char>)| (e.0@, e.1@)) =~= m.push((kv, vv)));
    }
}

impl Attributes {
    /// The value of the argument `key` (lowercase).
    pub fn get(&self, key: &str) -> (out: Option<&String>)
        ensures
            match out {
                Some(v) => attr_get(self@, key@) == Some(v@),
                None => attr_get(self@, key@) is None,
            },
    {
        let k = str_chars(key);
        let ghost m = self@;
        let mut i: usize = 0;
        while i < self.entries.len()
            invariant
                i <= self.entries.len(),
                m == self@,
                k@ == key@,
                attr_index(m, k@, 0) == attr_index(m, k@, i as int),
            decreases self.entries.len() - i,
        {
            let ek = str_chars(self.entries[i].0.as_str());
            if chars_eq(&ek, &k) {
                assert(m[i as int].0 == k@);
                assert(attr_index(m, k@, i as int) == i as int);
                assert(m[i as int].1 == self.entries@[i as int].1@);
                return Some(&self.entries[i].1);
            }
            i += 1;
        }
        None
    }

    /// The number of distinct arguments.
    pub fn len(&self) -> (out: usize)
        ensures
            out == self@.len(),
    {
        self.entries.len()
    }
}

pub open spec fn is_arg_sep(c: char) -> bool {
    is_ws(c) || c == '\\'
}

pub open spec fn is_key_char(c: char) -> bool {
    is_ascii_alnum(c) || c == '_'
}

pub open spec fn skip_arg_sep(h: Seq<char>, i: int) -> int
    decreases h.len() - i,
{
    if 0 <= i < h.len() && is_arg_sep(h[i]) {
        skip_arg_sep(h, i + 1)
    } else {
        i
    }
}

pub open spec fn skip_key(h: Seq<char>, i: int) -> int
    decreases h.len() - i,
{
    if 0 <= i < h.len() && is_key_char(h[i]) {
        skip_key(h, i + 1)
    } else {
        i
    }
}

proof fn lemma_skip_arg_bounds(h: Seq<char>, i: int)
    requires
        0 <= i <= h.len(),
    ensures
        i <= skip_arg_sep(h, i) <= h.len(),
        i <= skip_key(h, i) <= h.len(),
    decreases h.len() - i,
{
    if i < h.len() {
        lemma_skip_arg_bounds(h, i + 1);
    }
}

/// `key="value"` / `key=value` pairs of a module header from `i` on, added to
/// `acc`. Stray `\` continuation marks are ignored.
pub open spec fn attrs_from(h: Seq<char>, i: int, acc: Seq<(Seq<char>, Seq<char>)>)
    -> Result<Seq<(Seq<char>, Seq<char>)>, Seq<char>>
    decreases h.len() - i,
{
    let j = skip_arg_sep(h, i);
    if !(0 <= i <= j <= h.len()) {
        Err(malformed_message())
    } else if j == h.len() {
        Ok(acc)
    } else {
        let k = skip_key(h, j);
        if !(j <= k < h.len()) || h[k] != '=' || k == j {
            Err(malformed_message())
        } else {
            let key = lower_ascii_seq(h.subrange(j, k));
            let a = k + 1;
            if a < h.len() && h[a] == '"' {
                match find_from(h, seq!['"'], a + 1) {
                    None => Err(unterminated_message()),
                    Some(q) => if i < q + 1 <= h.len() {
                        attrs_from(h, q + 1, attr_insert(acc, key, h.subrange(a + 1, q)))
                    } else {
                        Err(unterminated_message())
                    },
                }
            } else {
                let e = skip_non_ws(h, a);
                if i < e <= h.len() {
                    attrs_from(h, e, attr_insert(acc, key, h.subrange(a, e)))
                } else {
                    Err(malformed_message())
                }
            }
        }
    }
}

pub open spec fn parse_attributes_spec(h: Seq<char>) -> Result<Seq<(Seq<char>, Seq<char>)>, Seq<char>> {
    attrs_from(h, 0, seq![])
}

fn skip_arg_sep_chars(h: &[char], i: usize) -> (out: usize)
    requires
        i <= h@.len(),
    ensures
        out == skip_arg_sep(h@, i as int),
{
    let mut k = i;
    while k < h.len() && (char_is_ws(h[k]) || h[k] == '\\')
        invariant
            i <= k <= h@.len(),
            skip_arg_sep(h@, i as int) == skip_arg_sep(h@, k as int),
        decreases h@.len() - k,
    {
        k += 1;
    }
    k
}

fn skip_key_chars(h: &[char], i: usize) -> (out: usize)
    requires
        i <= h@.len(),
    ensures
        out == skip_key(h@, i as int),
{
    let mut k = i;
    while k < h.len() && (('0' <= h[k] && h[k] <= '9') || ('a' <= h[k] && h[k] <= 'z') || ('A' <= h[k] && h[k] <= 'Z') || h[k] == '_')
        invariant
            i <= k <= h@.len(),
            skip_key(h@, i as int) == skip_key(h@, k as int),
        decreases h@.len() - k,
    {
        k += 1;
    }
    k
}

fn attributes_from_entries(es: Vec<(Vec<char>, Vec<char>)>) -> (out: Attributes)
    ensures
        out@ == es@.map_values(|e: (Vec<char>, Vec<char>)| (e.0@, e.1@)),
{
    let mut entries: Vec<(String, String)> = Vec::new();
    let mut i: usize = 0;
    while i < es.len()
        invariant
            i <= es.len(),
            entries@.map_values(|e: (String, String)| (e.0@, e.1@))
                =~= es@.map_values(|e: (Vec<char>, Vec<char>)| (e.0@, e.1@)).take(i as int),
        decreases es.len() - i,
    {
        let k = string_from_chars(&es[i].0);
        let v = string_from_chars(&es[i].1);
        let ghost before = entries@.map_values(|e: (String, String)| (e.0@, e.1@));
        entries.push((k, v));
        assert(entries@.map_values(|e: (String, String)| (e.0@, e.1@)) =~= before.push((es@[i as int].0@, es@[i as int].1@)));
        assert(es@.map_values(|e: (Vec<char>, Vec<char>)| (e.0@, e.1@)).take(i + 1)
            =~= es@.map_values(|e: (Vec<char>, Vec<char>)| (e.0@, e.1@)).take(i as int).push((es@[i as int].0@, es@[i as int].1@)));
        i += 1;
    }
    assert(es@.map_values(|e: (Vec<char>, Vec<char>)| (e.0@, e.1@)).take(i as int) =~= es@.map_values(|e: (Vec<char>, Vec<char>)| (e.0@, e.1@)));
    Attributes { entries }
}

/// Parse `key="value"` / `key=value` pairs. Stray `\` continuation marks are ignored.
pub fn parse_attributes(header: &str) -> (out: Result<Attributes, String>)
    ensures
        match out {
            Ok(a) => parse_attributes_spec(header@) == Ok::<_, Seq<char>>(a@),
            Err(e) => parse_attributes_spec(header@) == Err::<Seq<(Seq<char>, Seq<char>)>, _>(e@),
        },
        out matches Ok(a) ==> distinct_keys(a@),
{
    proof {
        assert(distinct_keys(Seq::<(Seq<char>, Seq<char>)>::empty()));
        lemma_attrs_from_distinct(header@, 0, seq![]);
    }
    let h = str_chars(header);
    let quote = vec!['"'];
    let mut es: Vec<(Vec<char>, Vec<char>)> = Vec::new();
    assert(es@.map_values(|e: (Vec<char>, Vec<char>)| (e.0@, e.1@)) =~= seq![]);
    let mut i: usize = 0;
    loop
        invariant
            i <= h@.len(),
            h@ == header@,
            quote@ == seq!['"'],
            parse_attributes_spec(h@) == attrs_from(h@, i as int, es@.map_values(|e: (Vec<char>, Vec<char>)| (e.0@, e.1@))),
            parse_attributes_spec(header@) matches Ok(all) ==> distinct_keys(all),
        decreases h@.len() - i,
    {
        let ghost acc = es@.map_values(|e: (Vec<char>, Vec<char>)| (e.0@, e.1@));
        proof { lemma_skip_arg_bounds(h@, i as int); }
        let j = skip_arg_sep_chars(&h, i);
        if j == h.len() {
            return Ok(attributes_from_entries(es));
        }
        proof { lemma_skip_arg_bounds(h@, j as int); }
        let k = skip_key_chars(&h, j);
        if k == h.len() || h[k] != '=' || k == j {
            return Err(string_from_chars(&malformed_message_chars()));
        }
        let key = chars_lower_ascii(&chars_sub(&h, j, k));
        let a = k + 1;
        if a < h.len() && h[a] == '"' {
            proof { lemma_find_from_bounds(h@, quote@, a + 1); }
            match chars_find_from(&h, &quote, a + 1) {
                None => return Err(string_from_chars(&unterminated_message_chars())),
                Some(q) => {
                    let value = chars_sub(&h, a + 1, q);
                    insert_attr(&mut es, key, value);
                    i = q + 1;
                },
            }
        } else {
            let e = chars_skip_non_ws(&h, a);
            proof { lemma_skip_bounds(h@, a as int); }
            let value = chars_sub(&h, a, e);
            insert_attr(&mut es, key, value);
            i = e;
        }
    }
}

/// The text `category`.
pub open spec fn key_category() -> Seq<char> {
    seq!['c', 'a', 't', 'e', 'g', 'o', 'r', 'y']
}

pub fn key_category_chars() -> (out: Vec<char>)
    ensures
        out@ == key_category(),
{
    vec!['c', 'a', 't', 'e', 'g', 'o', 'r', 'y']
}

/// The text `tags`.
pub open spec fn key_tags() -> Seq<char> {
    seq!['t', 'a', 'g', 's']
}

pub fn key_tags_chars() -> (out: Vec<char>)
    ensures
        out@ == key_tags(),
{
    vec!['t', 'a', 'g', 's']
}

/// The text `tag`.
pub open spec fn key_tag() -> Seq<char> {
    seq!['t', 'a', 'g']
}

pub fn key_tag_chars() -> (out: Vec<char>)
    ensures
        out@ == key_tag(),
{
    vec!['t', 'a', 'g']
}

/// The text `pagetype`.
pub open spec fn key_pagetype() -> Seq<char> {
    seq!['p', 'a', 'g', 'e', 't', 'y', 'p', 'e']
}

pub fn key_pagetype_chars() -> (out: Vec<char>)
    ensures
        out@ == key_pagetype(),
{
    vec!['p', 'a', 'g', 'e', 't', 'y', 'p', 'e']
}

/// The text `order`.
pub open spec fn key_order() -> Seq<char> {
    seq!['o', 'r', 'd', 'e', 'r']
}

pub fn key_order_chars() -> (out: Vec<char>)
    ensures
        out@ == key_order(),
{
    vec!['o', 'r', 'd', 'e', 'r']
}

/// The text `limit`.
pub open spec fn key_limit() -> Seq<char> {
    seq!['l', 'i', 'm', 'i', 't']
}

pub fn key_limit_chars() -> (out: Vec<char>)
    ensures
        out@ == key_limit(),
{
    vec!['l', 'i', 'm', 'i', 't']
}

/// The text `perpage`.
pub open spec fn key_perpage() -> Seq<char> {
    seq!['p', 'e', 'r', 'p', 'a', 'g', 'e']
}

pub fn key_perpage_chars() -> (out: Vec<char>)
    ensures
        out@ == key_perpage(),
{
    vec!['p', 'e', 'r', 'p', 'a', 'g', 'e']
}

/// The text `created_at`.
pub open spec fn key_created_at() -> Seq<char> {
    seq!['c', 'r', 'e', 'a', 't', 'e', 'd', '_', 'a', 't']
}

pub fn key_created_at_chars() -> (out: Vec<char>)
    ensures
        out@ == key_created_at(),
{
    vec!['c', 'r', 'e', 'a', 't', 'e', 'd', '_', 'a', 't']
}

/// The text `separate`.
pub open spec fn key_separate() -> Seq<char> {
    seq!['s', 'e', 'p', 'a', 'r', 'a', 't', 'e']
}

pub fn key_separate_chars() -> (out: Vec<char>)
    ensures
        out@ == key_separate(),
{
    vec!['s', 'e', 'p', 'a', 'r', 'a', 't', 'e']
}

/// The text `prependline`.
pub open spec fn key_prependline() -> Seq<char> {
    seq!['p', 'r', 'e', 'p', 'e', 'n', 'd', 'l', 'i', 'n', 'e']
}

pub fn key_prependline_chars() -> (out: Vec<char>)
    ensures
        out@ == key_prependline(),
{
    vec!['p', 'r', 'e', 'p', 'e', 'n', 'd', 'l', 'i', 'n', 'e']
}

/// The text `appendline`.
pub open spec fn key_appendline() -> Seq<char> {
    seq!['a', 'p', 'p', 'e', 'n', 'd', 'l', 'i', 'n', 'e']
}

pub fn key_appendline_chars() -> (out: Vec<char>)
    ensures
        out@ == key_appendline(),
{
    vec!['a', 'p', 'p', 'e', 'n', 'd', 'l', 'i', 'n', 'e']
}

/// The text `normal`.
pub open spec fn word_normal() -> Seq<char> {
    seq!['n', 'o', 'r', 'm', 'a', 'l']
}

pub fn word_normal_chars() -> (out: Vec<char>)
    ensures
        out@ == word_normal(),
{
    vec!['n', 'o', 'r', 'm', 'a', 'l']
}

/// The text `hidden`.
pub open spec fn word_hidden() -> Seq<char> {
    seq!['h', 'i', 'd', 'd', 'e', 'n']
}

pub fn word_hidden_chars() -> (out: Vec<char>)
    ensures
        out@ == word_hidden(),
{
    vec!['h', 'i', 'd', 'd', 'e', 'n']
}

/// The text `*`.
pub open spec fn word_star() -> Seq<char> {
    seq!['*']
}

pub fn word_star_chars() -> (out: Vec<char>)
    ensures
        out@ == word_star(),
{
    vec!['*']
}

/// The text `.`.
pub open spec fn word_dot() -> Seq<char> {
    seq!['.']
}

pub fn word_dot_chars() -> (out: Vec<char>)
    ensures
        out@ == word_dot(),
{
    vec!['.']
}

/// The text `-`.
pub open spec fn word_dash() -> Seq<char> {
    seq!['-']
}

pub fn word_dash_chars() -> (out: Vec<char>)
    ensures
        out@ == word_dash(),
{
    vec!['-']
}

/// The text `name`.
pub open spec fn word_name() -> Seq<char> {
    seq!['n', 'a', 'm', 'e']
}

pub fn word_name_chars() -> (out: Vec<char>)
    ensures
        out@ == word_name(),
{
    vec!['n', 'a', 'm', 'e']
}

/// The text `fullname`.
pub open spec fn word_fullname() -> Seq<char> {
    seq!['f', 'u', 'l', 'l', 'n', 'a', 'm', 'e']
}

pub fn word_fullname_chars() -> (out: Vec<char>)
    ensures
        out@ == word_fullname(),
{
    vec!['f', 'u', 'l', 'l', 'n', 'a', 'm', 'e']
}

/// The text `title`.
pub open spec fn word_title() -> Seq<char> {
    seq!['t', 'i', 't', 'l', 'e']
}

pub fn word_title_chars() -> (out: Vec<char>)
    ensures
        out@ == word_title(),
{
    vec!['t', 'i', 't', 'l', 'e']
}

/// The text `updated_at`.
pub open spec fn word_updated_at() -> Seq<char> {
    seq!['u', 'p', 'd', 'a', 't', 'e', 'd', '_', 'a', 't']
}

pub fn word_updated_at_chars() -> (out: Vec<char>)
    ensures
        out@ == word_updated_at(),
{
    vec!['u', 'p', 'd', 'a', 't', 'e', 'd', '_', 'a', 't']
}

/// The text `asc`.
pub open spec fn word_asc() -> Seq<char> {
    seq!['a', 's', 'c']
}

pub fn word_asc_chars() -> (out: Vec<char>)
    ensures
        out@ == word_asc(),
{
    vec!['a', 's', 'c']
}

/// The text `desc`.
pub open spec fn word_desc() -> Seq<char> {
    seq!['d', 'e', 's', 'c']
}

pub fn word_desc_chars() -> (out: Vec<char>)
    ensures
        out@ == word_desc(),
{
    vec!['d', 'e', 's', 'c']
}

/// The text `last`.
pub open spec fn word_last() -> Seq<char> {
    seq!['l', 'a', 's', 't']
}

pub fn word_last_chars() -> (out: Vec<char>)
    ensures
        out@ == word_last(),
{
    vec!['l', 'a', 's', 't']
}

/// The text `day`.
pub open spec fn word_day() -> Seq<char> {
    seq!['d', 'a', 'y']
}

pub fn word_day_chars() -> (out: Vec<char>)
    ensures
        out@ == word_day(),
{
    vec!['d', 'a', 'y']
}

/// The text `days`.
pub open spec fn word_days() -> Seq<char> {
    seq!['d', 'a', 'y', 's']
}

pub fn word_days_chars() -> (out: Vec<char>)
    ensures
        out@ == word_days(),
{
    vec!['d', 'a', 'y', 's']
}

/// The text `yes`.
pub open spec fn word_yes() -> Seq<char> {
    seq!['y', 'e', 's']
}

pub fn word_yes_chars() -> (out: Vec<char>)
    ensures
        out@ == word_yes(),
{
    vec!['y', 'e', 's']
}

/// The text `true`.
pub open spec fn word_true() -> Seq<char> {
    seq!['t', 'r', 'u', 'e']
}

pub fn word_true_chars() -> (out: Vec<char>)
    ensures
        out@ == word_true(),
{
    vec!['t', 'r', 'u', 'e']
}

/// The text `no`.
pub open spec fn word_no() -> Seq<char> {
    seq!['n', 'o']
}

pub fn word_no_chars() -> (out: Vec<char>)
    ensures
        out@ == word_no(),
{
    vec!['n', 'o']
}

/// The text `false`.
pub open spec fn word_false() -> Seq<char> {
    seq!['f', 'a', 'l', 's', 'e']
}

pub fn word_false_chars() -> (out: Vec<char>)
    ensures
        out@ == word_false(),
{
    vec!['f', 'a', 'l', 's', 'e']
}

/// The text `unsupported argument `.
pub open spec fn unsupported_argument_prefix() -> Seq<char> {
    seq!['u', 'n', 's', 'u', 'p', 'p', 'o', 'r', 't', 'e', 'd', ' ', 'a', 'r', 'g', 'u', 'm', 'e', 'n', 't', ' ']
}

pub fn unsupported_argument_prefix_chars() -> (out: Vec<char>)
    ensures
        out@ == unsupported_argument_prefix(),
{
    vec!['u', 'n', 's', 'u', 'p', 'p', 'o', 'r', 't', 'e', 'd', ' ', 'a', 'r', 'g', 'u', 'm', 'e', 'n', 't', ' ']
}

/// The text `both tags and tag given`.
pub open spec fn both_tags_message() -> Seq<char> {
    seq!['b', 'o', 't', 'h', ' ', 't', 'a', 'g', 's', ' ', 'a', 'n', 'd', ' ', 't', 'a', 'g', ' ', 'g', 'i', 'v', 'e', 'n']
}

pub fn both_tags_message_chars() -> (out: Vec<char>)
    ensures
        out@ == both_tags_message(),
{
    vec!['b', 'o', 't', 'h', ' ', 't', 'a', 'g', 's', ' ', 'a', 'n', 'd', ' ', 't', 'a', 'g', ' ', 'g', 'i', 'v', 'e', 'n']
}

/// The text `unsupported pagetype`.
pub open spec fn unsupported_pagetype_message() -> Seq<char> {
    seq!['u', 'n', 's', 'u', 'p', 'p', 'o', 'r', 't', 'e', 'd', ' ', 'p', 'a', 'g', 'e', 't', 'y', 'p', 'e']
}

pub fn unsupported_pagetype_message_chars() -> (out: Vec<char>)
    ensures
        out@ == unsupported_pagetype_message(),
{
    vec!['u', 'n', 's', 'u', 'p', 'p', 'o', 'r', 't', 'e', 'd', ' ', 'p', 'a', 'g', 'e', 't', 'y', 'p', 'e']
}

/// The text `invalid `.
pub open spec fn invalid_prefix() -> Seq<char> {
    seq!['i', 'n', 'v', 'a', 'l', 'i', 'd', ' ']
}

pub fn invalid_prefix_chars() -> (out: Vec<char>)
    ensures
        out@ == invalid_prefix(),
{
    vec!['i', 'n', 'v', 'a', 'l', 'i', 'd', ' ']
}

/// The text `unsupported created_at`.
pub open spec fn unsupported_created_message() -> Seq<char> {
    seq!['u', 'n', 's', 'u', 'p', 'p', 'o', 'r', 't', 'e', 'd', ' ', 'c', 'r', 'e', 'a', 't', 'e', 'd', '_', 'a', 't']
}

pub fn unsupported_created_message_chars() -> (out: Vec<char>)
    ensures
        out@ == unsupported_created_message(),
{
    vec!['u', 'n', 's', 'u', 'p', 'p', 'o', 'r', 't', 'e', 'd', ' ', 'c', 'r', 'e', 'a', 't', 'e', 'd', '_', 'a', 't']
}

/// The text `unsupported separate`.
pub open spec fn unsupported_separate_message() -> Seq<char> {
    seq!['u', 'n', 's', 'u', 'p', 'p', 'o', 'r', 't', 'e', 'd', ' ', 's', 'e', 'p', 'a', 'r', 'a', 't', 'e']
}

pub fn unsupported_separate_message_chars() -> (out: Vec<char>)
    ensures
        out@ == unsupported_separate_message(),
{
    vec!['u', 'n', 's', 'u', 'p', 'p', 'o', 'r', 't', 'e', 'd', ' ', 's', 'e', 'p', 'a', 'r', 'a', 't', 'e']
}

/// The text `unsupported order`.
pub open spec fn unsupported_order_message() -> Seq<char> {
    seq!['u', 'n', 's', 'u', 'p', 'p', 'o', 'r', 't', 'e', 'd', ' ', 'o', 'r', 'd', 'e', 'r']
}

pub fn unsupported_order_message_chars() -> (out: Vec<char>)
    ensures
        out@ == unsupported_order_message(),
{
    vec!['u', 'n', 's', 'u', 'p', 'p', 'o', 'r', 't', 'e', 'd', ' ', 'o', 'r', 'd', 'e', 'r']
}

#[derive(Debug, PartialEq, Eq, Structural, Clone, Copy)]
pub enum PageType {
    Normal,
    Hidden,
    All,
}

#[derive(Debug, PartialEq, Eq, Structural, Clone, Copy)]
pub enum OrderField {
    Name,
    Fullname,
    Title,
    CreatedAt,
    UpdatedAt,
}

pub const DEFAULT_PER_PAGE: usize = 20;
pub const MAX_PER_PAGE: usize = 250;

/// What to select and how to lay it out, derived from module arguments.
#[derive(Debug)]
pub struct Selection {
    pub all_categories: bool,
    pub categories: Vec<String>,
    pub excluded_categories: Vec<String>,
    pub any_tags: Vec<String>,
    pub all_tags: Vec<String>,
    pub excluded_tags: Vec<String>,
    pub untagged: bool,
    pub page_type: PageType,
    pub order: OrderField,
    pub descending: bool,
    pub per_page: usize,
    /// Cap on items across all pages.
    pub limit: Option<usize>,
    pub created_within_days: Option<i64>,
    pub separate: bool,
    pub prepend_line: Option<String>,
    pub append_line: Option<String>,
}

pub ghost struct SelectionView {
    pub all_categories: bool,
    pub categories: Seq<Seq<char>>,
    pub excluded_categories: Seq<Seq<char>>,
    pub any_tags: Seq<Seq<char>>,
    pub all_tags: Seq<Seq<char>>,
    pub excluded_tags: Seq<Seq<char>>,
    pub untagged: bool,
    pub page_type: PageType,
    pub order: OrderField,
    pub descending: bool,
    pub per_page: usize,
    pub limit: Option<usize>,
    pub created_within_days: Option<i64>,
    pub separate: bool,
    pub prepend_line: Option<Seq<char>>,
    pub append_line: Option<Seq<char>>,
}

pub open spec fn strings_view(v: Seq<String>) -> Seq<Seq<char>> {
    v.map_values(|s: String| s@)
}

pub open spec fn opt_view(v: Option<String>) -> Option<Seq<char>> {
    match v {
        Some(s) => Some(s@),
        None => None,
    }
}

impl View for Selection {
    type V = SelectionView;

    open spec fn view(&self) -> SelectionView {
        SelectionView {
            all_categories: self.all_categories,
            categories: strings_view(self.categories@),
            excluded_categories: strings_view(self.excluded_categories@),
            any_tags: strings_view(self.any_tags@),
            all_tags: strings_view(self.all_tags@),
            excluded_tags: strings_view(self.excluded_tags@),
            untagged: self.untagged,
            page_type: self.page_type,
            order: self.order,
            descending: self.descending,
            per_page: self.per_page,
            limit: self.limit,
            created_within_days: self.created_within_days,
            separate: self.separate,
            prepend_line: opt_view(self.prepend_line),
            append_line: opt_view(self.append_line),
        }
    }
}

pub open spec fn supported_key(k: Seq<char>) -> bool {
    k == key_category() || k == key_tags() || k == key_tag() || k == key_pagetype()
        || k == key_order() || k == key_limit() || k == key_perpage() || k == key_created_at()
        || k == key_separate() || k == key_prependline() || k == key_appendline()
}

/// The first argument key from `i` on that ListPages does not take.
pub open spec fn first_unsupported(es: Seq<(Seq<char>, Seq<char>)>, i: int) -> Option<Seq<char>>
    decreases es.len() - i,
{
    if i < 0 || i >= es.len() {
        None
    } else if !supported_key(es[i].0) {
        Some(es[i].0)
    } else {
        first_unsupported(es, i + 1)
    }
}

pub open spec fn parse_page_type_spec(value: Option<Seq<char>>) -> Result<PageType, Seq<char>> {
    match value {
        None => Ok(PageType::Normal),
        Some(v) => if v == word_normal() {
            Ok(PageType::Normal)
        } else if v == word_hidden() {
            Ok(PageType::Hidden)
        } else if v == word_star() {
            Ok(PageType::All)
        } else {
            Err(unsupported_pagetype_message())
        },
    }
}

pub open spec fn parse_number_spec(es: Seq<(Seq<char>, Seq<char>)>, key: Seq<char>) -> Result<Option<usize>, Seq<char>> {
    match attr_get(es, key) {
        None => Ok(None),
        Some(v) => match parse_usize(trim(v)) {
            Some(n) => Ok(Some(n)),
            None => Err(invalid_prefix() + key),
        },
    }
}

/// `last N day(s)`, with `N` an `i64`.
pub open spec fn parse_last_days_spec(value: Seq<char>) -> Result<i64, Seq<char>> {
    let t = words(value);
    if t.len() == 3 && t[0] == word_last() && (t[2] == word_day() || t[2] == word_days()) {
        match parse_i64(t[1]) {
            Some(d) => Ok(d),
            None => Err(unsupported_created_message()),
        }
    } else {
        Err(unsupported_created_message())
    }
}

pub open spec fn parse_separate_spec(value: Option<Seq<char>>) -> Result<bool, Seq<char>> {
    match value {
        None => Ok(true),
        Some(v) => if v == word_yes() || v == word_true() {
            Ok(true)
        } else if v == word_no() || v == word_false() {
            Ok(false)
        } else {
            Err(unsupported_separate_message())
        },
    }
}

pub open spec fn order_field_of(w: Seq<char>) -> Option<OrderField> {
    if w == word_name() {
        Some(OrderField::Name)
    } else if w == word_fullname() {
        Some(OrderField::Fullname)
    } else if w == word_title() {
        Some(OrderField::Title)
    } else if w == key_created_at() {
        Some(OrderField::CreatedAt)
    } else if w == word_updated_at() {
        Some(OrderField::UpdatedAt)
    } else {
        None
    }
}

/// `field [asc|desc]`; the flag is whether the order is descending.
pub open spec fn parse_order_spec(value: Seq<char>) -> Result<(OrderField, bool), Seq<char>> {
    let t = words(value);
    if t.len() == 0 || t.len() > 2 || order_field_of(t[0]) is None {
        Err(unsupported_order_message())
    } else if t.len() == 1 || t[1] == word_asc() {
        Ok((order_field_of(t[0]).unwrap(), false))
    } else if t[1] == word_desc() {
        Ok((order_field_of(t[0]).unwrap(), true))
    } else {
        Err(unsupported_order_message())
    }
}

/// `s` without all its leading `+`.
pub open spec fn strip_plus(s: Seq<char>) -> Seq<char>
    decreases s.len(),
{
    if s.len() > 0 && s[0] == '+' {
        strip_plus(s.drop_first())
    } else {
        s
    }
}

/// One category term applied to (all categories, included, excluded).
pub open spec fn category_step(st: (bool, Seq<Seq<char>>, Seq<Seq<char>>), term: Seq<char>, current: Seq<char>)
    -> (bool, Seq<Seq<char>>, Seq<Seq<char>>) {
    if term == word_star() {
        (true, st.1, st.2)
    } else if term == word_dot() {
        (st.0, st.1.push(current), st.2)
    } else if term.len() > 0 && term[0] == '-' {
        (st.0, st.1, st.2.push(term.drop_first()))
    } else {
        (st.0, st.1.push(strip_plus(term)), st.2)
    }
}

pub open spec fn category_fold(init: (bool, Seq<Seq<char>>, Seq<Seq<char>>), terms: Seq<Seq<char>>, current: Seq<char>)
    -> (bool, Seq<Seq<char>>, Seq<Seq<char>>)
    decreases terms.len(),
{
    if terms.len() == 0 {
        init
    } else {
        category_step(category_fold(init, terms.drop_last(), current), terms.last(), current)
    }
}

/// `category="..."` applied to (all categories, included, excluded): `*` for all,
/// `.` for the current one, `-c` to exclude, `c` or `+c` to include; afterwards no
/// included category means all of them. Without a value, the current category.
pub open spec fn parse_categories_spec(st: (bool, Seq<Seq<char>>, Seq<Seq<char>>), value: Option<Seq<char>>, current: Seq<char>)
    -> (bool, Seq<Seq<char>>, Seq<Seq<char>>) {
    match value {
        Some(v) if trim(v).len() > 0 => {
            let f = category_fold(st, words(trim(v)), current);
            (f.0 || f.1.len() == 0, f.1, f.2)
        },
        _ => (st.0, st.1.push(current), st.2),
    }
}

/// One tag term applied to (untagged, all of, none of, any of).
pub open spec fn tag_step(st: (bool, Seq<Seq<char>>, Seq<Seq<char>>, Seq<Seq<char>>), term: Seq<char>)
    -> (bool, Seq<Seq<char>>, Seq<Seq<char>>, Seq<Seq<char>>) {
    if term == word_dash() {
        (true, st.1, st.2, st.3)
    } else if term.len() > 0 && term[0] == '+' {
        (st.0, st.1.push(term.drop_first()), st.2, st.3)
    } else if term.len() > 0 && term[0] == '-' {
        (st.0, st.1, st.2.push(term.drop_first()), st.3)
    } else {
        (st.0, st.1, st.2, st.3.push(term))
    }
}

/// `tags="..."` applied to (untagged, all of, none of, any of): `-` for untagged
/// pages, `+t` required, `-t` excluded, `t` any of.
pub open spec fn tag_fold(init: (bool, Seq<Seq<char>>, Seq<Seq<char>>, Seq<Seq<char>>), terms: Seq<Seq<char>>)
    -> (bool, Seq<Seq<char>>, Seq<Seq<char>>, Seq<Seq<char>>)
    decreases terms.len(),
{
    if terms.len() == 0 {
        init
    } else {
        tag_step(tag_fold(init, terms.drop_last()), terms.last())
    }
}

pub open spec fn min_usize(a: usize, b: usize) -> usize {
    if a <= b { a } else { b }
}

/// The selection that module arguments `es` describe on a page in category `current`.
pub open spec fn parse_selection_spec(es: Seq<(Seq<char>, Seq<char>)>, current: Seq<char>) -> Result<SelectionView, Seq<char>> {
    if first_unsupported(es, 0) is Some {
        Err(unsupported_argument_prefix() + first_unsupported(es, 0).unwrap())
    } else if attr_get(es, key_tags()) is Some && attr_get(es, key_tag()) is Some {
        Err(both_tags_message())
    } else if parse_page_type_spec(attr_get(es, key_pagetype())) is Err {
        Err(parse_page_type_spec(attr_get(es, key_pagetype()))->Err_0)
    } else if parse_number_spec(es, key_perpage()) is Err {
        Err(parse_number_spec(es, key_perpage())->Err_0)
    } else if parse_number_spec(es, key_limit()) is Err {
        Err(parse_number_spec(es, key_limit())->Err_0)
    } else if attr_get(es, key_created_at()) is Some && parse_last_days_spec(attr_get(es, key_created_at()).unwrap()) is Err {
        Err(unsupported_created_message())
    } else if parse_separate_spec(attr_get(es, key_separate())) is Err {
        Err(unsupported_separate_message())
    } else if attr_get(es, key_order()) is Some && parse_order_spec(attr_get(es, key_order()).unwrap()) is Err {
        Err(unsupported_order_message())
    } else {
        let cats = parse_categories_spec((false, seq![], seq![]), attr_get(es, key_category()), current);
        let tag_value = if attr_get(es, key_tags()) is Some { attr_get(es, key_tags()) } else { attr_get(es, key_tag()) };
        let tags = match tag_value {
            Some(v) => tag_fold((false, seq![], seq![], seq![]), words(v)),
            None => (false, seq![], seq![], seq![]),
        };
        let order = match attr_get(es, key_order()) {
            Some(v) => parse_order_spec(v)->Ok_0,
            None => (OrderField::CreatedAt, true),
        };
        let per_page = match parse_number_spec(es, key_perpage())->Ok_0 {
            Some(n) => min_usize(n, MAX_PER_PAGE),
            None => DEFAULT_PER_PAGE,
        };
        Ok(SelectionView {
            all_categories: cats.0,
            categories: cats.1,
            excluded_categories: cats.2,
            any_tags: tags.3,
            all_tags: tags.1,
            excluded_tags: tags.2,
            untagged: tags.0,
            page_type: parse_page_type_spec(attr_get(es, key_pagetype()))->Ok_0,
            order: order.0,
            descending: order.1,
            per_page,
            limit: parse_number_spec(es, key_limit())->Ok_0,
            created_within_days: match attr_get(es, key_created_at()) {
                Some(v) => Some(parse_last_days_spec(v)->Ok_0),
                None => None,
            },
            separate: parse_separate_spec(attr_get(es, key_separate()))->Ok_0,
            prepend_line: attr_get(es, key_prependline()),
            append_line: attr_get(es, key_appendline()),
        })
    }
}

pub open spec fn res_view<T>(r: Result<T, String>) -> Result<T, Seq<char>> {
    match r {
        Ok(t) => Ok(t),
        Err(e) => Err(e@),
    }
}

pub open spec fn opt_ref_view(v: Option<&String>) -> Option<Seq<char>> {
    match v {
        Some(s) => Some(s@),
        None => None,
    }
}

fn push_string(v: &mut Vec<String>, c: &[char])
    ensures
        strings_view(final(v)@) == strings_view(old(v)@).push(c@),
{
    let ghost before = strings_view(v@);
    v.push(string_from_chars(c));
    assert(strings_view(v@) =~= before.push(c@));
}

fn message(c: Vec<char>) -> (out: String)
    ensures
        out@ == c@,
{
    string_from_chars(&c)
}

fn concat_message(a: Vec<char>, b: &[char]) -> (out: String)
    ensures
        out@ == a@ + b@,
{
    let mut a = a;
    push_all(&mut a, b);
    string_from_chars(&a)
}

impl Attributes {
    fn get_chars(&self, key: &[char]) -> (out: Option<Vec<char>>)
        ensures
            match out {
                Some(v) => attr_get(self@, key@) == Some(v@),
                None => attr_get(self@, key@) is None,
            },
    {
        let ghost m = self@;
        let mut i: usize = 0;
        while i < self.entries.len()
            invariant
                i <= self.entries.len(),
                m == self@,
                attr_index(m, key@, 0) == attr_index(m, key@, i as int),
            decreases self.entries.len() - i,
        {
            let ek = str_chars(self.entries[i].0.as_str());
            if chars_eq(&ek, key) {
                assert(m[i as int].0 == key@);
                assert(attr_index(m, key@, i as int) == i as int);
                return Some(str_chars(self.entries[i].1.as_str()));
            }
            i += 1;
        }
        None
    }
}

fn eq_lit(a: &[char], b: Vec<char>) -> (out: bool)
    ensures
        out == (a@ == b@),
{
    chars_eq(a, &b)
}

fn parse_page_type_chars(value: Option<&Vec<char>>) -> (out: Result<PageType, String>)
    ensures
        res_view(out) == parse_page_type_spec(match value { Some(v) => Some(v@), None => None }),
{
    match value {
        None => Ok(PageType::Normal),
        Some(v) => if eq_lit(v, word_normal_chars()) {
            Ok(PageType::Normal)
        } else if eq_lit(v, word_hidden_chars()) {
            Ok(PageType::Hidden)
        } else if eq_lit(v, word_star_chars()) {
            Ok(PageType::All)
        } else {
            Err(message(unsupported_pagetype_message_chars()))
        },
    }
}

/// `pagetype="normal|hidden|*"`.
pub fn parse_page_type(value: Option<&String>) -> (out: Result<PageType, String>)
    ensures
        res_view(out) == parse_page_type_spec(opt_ref_view(value)),
{
    match value {
        Some(v) => {
            let c = str_chars(v.as_str());
            parse_page_type_chars(Some(&c))
        },
        None => parse_page_type_chars(None),
    }
}

fn parse_number_chars(attributes: &Attributes, key: &[char]) -> (out: Result<Option<usize>, String>)
    ensures
        res_view(out) == parse_number_spec(attributes@, key@),
{
    match attributes.get_chars(key) {
        None => Ok(None),
        Some(v) => match chars_parse_usize(&chars_trim(&v)) {
            Some(n) => Ok(Some(n)),
            None => Err(concat_message(invalid_prefix_chars(), key)),
        },
    }
}

/// The number an argument gives, `None` when it is absent.
pub fn parse_number(attributes: &Attributes, key: &str) -> (out: Result<Option<usize>, String>)
    ensures
        res_view(out) == parse_number_spec(attributes@, key@),
{
    parse_number_chars(attributes, &str_chars(key))
}

fn parse_last_days_chars(value: &[char]) -> (out: Result<i64, String>)
    ensures
        res_view(out) == parse_last_days_spec(value@),
{
    let t = chars_words(value);
    let ghost tv = t@.map_values(|w: Vec<char>| w@);
    if t.len() == 3 {
        assert(tv[0] == t@[0]@ && tv[1] == t@[1]@ && tv[2] == t@[2]@);
        if eq_lit(&t[0], word_last_chars()) && (eq_lit(&t[2], word_day_chars()) || eq_lit(&t[2], word_days_chars())) {
            return match chars_parse_i64(&t[1]) {
                Some(d) => Ok(d),
                None => Err(message(unsupported_created_message_chars())),
            };
        }
    }
    Err(message(unsupported_created_message_chars()))
}

/// `created_at="last N days"`: the number of days.
pub fn parse_last_days(value: &str) -> (out: Result<i64, String>)
    ensures
        res_view(out) == parse_last_days_spec(value@),
{
    parse_last_days_chars(&str_chars(value))
}

fn parse_separate_chars(value: Option<&Vec<char>>) -> (out: Result<bool, String>)
    ensures
        res_view(out) == parse_separate_spec(match value { Some(v) => Some(v@), None => None }),
{
    match value {
        None => Ok(true),
        Some(v) => if eq_lit(v, word_yes_chars()) || eq_lit(v, word_true_chars()) {
            Ok(true)
        } else if eq_lit(v, word_no_chars()) || eq_lit(v, word_false_chars()) {
            Ok(false)
        } else {
            Err(message(unsupported_separate_message_chars()))
        },
    }
}

/// `separate="yes|true|no|false"`, separate by default.
pub fn parse_separate(value: Option<&String>) -> (out: Result<bool, String>)
    ensures
        res_view(out) == parse_separate_spec(opt_ref_view(value)),
{
    match value {
        Some(v) => {
            let c = str_chars(v.as_str());
            parse_separate_chars(Some(&c))
        },
        None => parse_separate_chars(None),
    }
}

fn order_field_chars(w: &[char]) -> (out: Option<OrderField>)
    ensures
        out == order_field_of(w@),
{
    if eq_lit(w, word_name_chars()) {
        Some(OrderField::Name)
    } else if eq_lit(w, word_fullname_chars()) {
        Some(OrderField::Fullname)
    } else if eq_lit(w, word_title_chars()) {
        Some(OrderField::Title)
    } else if eq_lit(w, key_created_at_chars()) {
        Some(OrderField::CreatedAt)
    } else if eq_lit(w, word_updated_at_chars()) {
        Some(OrderField::UpdatedAt)
    } else {
        None
    }
}

fn parse_order_chars(value: &[char]) -> (out: Result<(OrderField, bool), String>)
    ensures
        res_view(out) == parse_order_spec(value@),
{
    let t = chars_words(value);
    let ghost tv = t@.map_values(|w: Vec<char>| w@);
    if t.len() == 0 || t.len() > 2 {
        return Err(message(unsupported_order_message_chars()));
    }
    assert(tv[0] == t@[0]@);
    let field = match order_field_chars(&t[0]) {
        Some(f) => f,
        None => return Err(message(unsupported_order_message_chars())),
    };
    if t.len() == 1 {
        return Ok((field, false));
    }
    assert(tv[1] == t@[1]@);
    if eq_lit(&t[1], word_asc_chars()) {
        Ok((field, false))
    } else if eq_lit(&t[1], word_desc_chars()) {
        Ok((field, true))
    } else {
        Err(message(unsupported_order_message_chars()))
    }
}

/// `order="field [asc|desc]"`: the field and whether the order is descending.
pub fn parse_order(value: &str) -> (out: Result<(OrderField, bool), String>)
    ensures
        res_view(out) == parse_order_spec(value@),
{
    parse_order_chars(&str_chars(value))
}

fn strip_plus_chars(s: &[char]) -> (out: Vec<char>)
    ensures
        out@ == strip_plus(s@),
{
    let mut i: usize = 0;
    assert(s@.skip(0) =~= s@);
    while i < s.len() && s[i] == '+'
        invariant
            i <= s.len(),
            strip_plus(s@) == strip_plus(s@.skip(i as int)),
        decreases s.len() - i,
    {
        assert(s@.skip(i as int).drop_first() =~= s@.skip(i + 1));
        i += 1;
    }
    let out = chars_sub(s, i, s.len());
    assert(s@.skip(i as int) =~= out@);
    out
}

fn parse_categories_chars(value: Option<&Vec<char>>, current: &[char], selection: &mut Selection)
    ensures
        (final(selection)@.all_categories, final(selection)@.categories, final(selection)@.excluded_categories)
            == parse_categories_spec(
                (old(selection)@.all_categories, old(selection)@.categories, old(selection)@.excluded_categories),
                match value { Some(v) => Some(v@), None => None }, current@),
        final(selection)@.any_tags == old(selection)@.any_tags,
        final(selection)@.all_tags == old(selection)@.all_tags,
        final(selection)@.excluded_tags == old(selection)@.excluded_tags,
        final(selection).untagged == old(selection).untagged,
        final(selection).page_type == old(selection).page_type,
        final(selection).order == old(selection).order,
        final(selection).descending == old(selection).descending,
        final(selection).per_page == old(selection).per_page,
        final(selection).limit == old(selection).limit,
        final(selection).created_within_days == old(selection).created_within_days,
        final(selection).separate == old(selection).separate,
        final(selection)@.prepend_line == old(selection)@.prepend_line,
        final(selection)@.append_line == old(selection)@.append_line,
{
    let v = match value {
        Some(v) => chars_trim(v),
        None => Vec::new(),
    };
    if value.is_none() || v.len() == 0 {
        push_string(&mut selection.categories, current);
        return;
    }
    let terms = chars_words(&v);
    let ghost tv = terms@.map_values(|w: Vec<char>| w@);
    let ghost init = (old(selection)@.all_categories, old(selection)@.categories, old(selection)@.excluded_categories);
    let mut i: usize = 0;
    while i < terms.len()
        invariant
            i <= terms.len(),
            tv == terms@.map_values(|w: Vec<char>| w@),
            tv == words(v@),
            (selection@.all_categories, selection@.categories, selection@.excluded_categories)
                == category_fold(init, tv.take(i as int), current@),
            selection@.any_tags == old(selection)@.any_tags,
            selection@.all_tags == old(selection)@.all_tags,
            selection@.excluded_tags == old(selection)@.excluded_tags,
            selection.untagged == old(selection).untagged,
            selection.page_type == old(selection).page_type,
            selection.order == old(selection).order,
            selection.descending == old(selection).descending,
            selection.per_page == old(selection).per_page,
            selection.limit == old(selection).limit,
            selection.created_within_days == old(selection).created_within_days,
            selection.separate == old(selection).separate,
            selection@.prepend_line == old(selection)@.prepend_line,
            selection@.append_line == old(selection)@.append_line,
        decreases terms.len() - i,
    {
        let term = &terms[i];
        assert(tv.take(i + 1).drop_last() =~= tv.take(i as int));
        assert(tv.take(i + 1).last() == term@);
        if eq_lit(term, word_star_chars()) {
            selection.all_categories = true;
        } else if eq_lit(term, word_dot_chars()) {
            push_string(&mut selection.categories, current);
        } else if term.len() > 0 && term[0] == '-' {
            let rest = chars_sub(term, 1, term.len());
            assert(rest@ =~= term@.drop_first());
            push_string(&mut selection.excluded_categories, &rest);
        } else {
            let name = strip_plus_chars(term);
            push_string(&mut selection.categories, &name);
        }
        i += 1;
    }
    assert(tv.take(terms.len() as int) =~= tv);
    if selection.categories.len() == 0 {
        selection.all_categories = true;
    }
}

/// `category="..."`: `*` for all, `.` for the current one, `-c` to exclude,
/// `c` or `+c` to include; afterwards no included category means all of them.
/// Without a value, the current category.
pub fn parse_categories(value: Option<&String>, current: &str, selection: &mut Selection)
    ensures
        (final(selection)@.all_categories, final(selection)@.categories, final(selection)@.excluded_categories)
            == parse_categories_spec(
                (old(selection)@.all_categories, old(selection)@.categories, old(selection)@.excluded_categories),
                opt_ref_view(value), current@),
        final(selection)@.any_tags == old(selection)@.any_tags,
        final(selection)@.all_tags == old(selection)@.all_tags,
        final(selection)@.excluded_tags == old(selection)@.excluded_tags,
        final(selection).untagged == old(selection).untagged,
        final(selection).page_type == old(selection).page_type,
        final(selection).order == old(selection).order,
        final(selection).descending == old(selection).descending,
        final(selection).per_page == old(selection).per_page,
        final(selection).limit == old(selection).limit,
        final(selection).created_within_days == old(selection).created_within_days,
        final(selection).separate == old(selection).separate,
        final(selection)@.prepend_line == old(selection)@.prepend_line,
        final(selection)@.append_line == old(selection)@.append_line,
{
    let c = str_chars(current);
    match value {
        Some(v) => {
            let vc = str_chars(v.as_str());
            parse_categories_chars(Some(&vc), &c, selection)
        },
        None => parse_categories_chars(None, &c, selection),
    }
}

fn parse_tags_chars(value: &[char], selection: &mut Selection)
    ensures
        (final(selection).untagged, final(selection)@.all_tags, final(selection)@.excluded_tags, final(selection)@.any_tags)
            == tag_fold((old(selection).untagged, old(selection)@.all_tags, old(selection)@.excluded_tags, old(selection)@.any_tags), words(value@)),
        final(selection)@.all_categories == old(selection)@.all_categories,
        final(selection)@.categories == old(selection)@.categories,
        final(selection)@.excluded_categories == old(selection)@.excluded_categories,
        final(selection).page_type == old(selection).page_type,
        final(selection).order == old(selection).order,
        final(selection).descending == old(selection).descending,
        final(selection).per_page == old(selection).per_page,
        final(selection).limit == old(selection).limit,
        final(selection).created_within_days == old(selection).created_within_days,
        final(selection).separate == old(selection).separate,
        final(selection)@.prepend_line == old(selection)@.prepend_line,
        final(selection)@.append_line == old(selection)@.append_line,
{
    let terms = chars_words(value);
    let ghost tv = terms@.map_values(|w: Vec<char>| w@);
    let ghost init = (old(selection).untagged, old(selection)@.all_tags, old(selection)@.excluded_tags, old(selection)@.any_tags);
    let mut i: usize = 0;
    while i < terms.len()
        invariant
            i <= terms.len(),
            tv == terms@.map_values(|w: Vec<char>| w@),
            tv == words(value@),
            (selection.untagged, selection@.all_tags, selection@.excluded_tags, selection@.any_tags)
                == tag_fold(init, tv.take(i as int)),
            selection@.all_categories == old(selection)@.all_categories,
            selection@.categories == old(selection)@.categories,
            selection@.excluded_categories == old(selection)@.excluded_categories,
            selection.page_type == old(selection).page_type,
            selection.order == old(selection).order,
            selection.descending == old(selection).descending,
            selection.per_page == old(selection).per_page,
            selection.limit == old(selection).limit,
            selection.created_within_days == old(selection).created_within_days,
            selection.separate == old(selection).separate,
            selection@.prepend_line == old(selection)@.prepend_line,
            selection@.append_line == old(selection)@.append_line,
        decreases terms.len() - i,
    {
        let term = &terms[i];
        assert(tv.take(i + 1).drop_last() =~= tv.take(i as int));
        assert(tv.take(i + 1).last() == term@);
        if eq_lit(term, word_dash_chars()) {
            selection.untagged = true;
        } else if term.len() > 0 && term[0] == '+' {
            let rest = chars_sub(term, 1, term.len());
            assert(rest@ =~= term@.drop_first());
            push_string(&mut selection.all_tags, &rest);
        } else if term.len() > 0 && term[0] == '-' {
            let rest = chars_sub(term, 1, term.len());
            assert(rest@ =~= term@.drop_first());
            push_string(&mut selection.excluded_tags, &rest);
        } else {
            push_string(&mut selection.any_tags, term);
        }
        i += 1;
    }
    assert(tv.take(terms.len() as int) =~= tv);
}

/// `tags="..."`: `-` for untagged pages, `+t` required, `-t` excluded, `t` any of.
pub fn parse_tags(value: &str, selection: &mut Selection)
    ensures
        (final(selection).untagged, final(selection)@.all_tags, final(selection)@.excluded_tags, final(selection)@.any_tags)
            == tag_fold((old(selection).untagged, old(selection)@.all_tags, old(selection)@.excluded_tags, old(selection)@.any_tags), words(value@)),
        final(selection)@.all_categories == old(selection)@.all_categories,
        final(selection)@.categories == old(selection)@.categories,
        final(selection)@.excluded_categories == old(selection)@.excluded_categories,
        final(selection).page_type == old(selection).page_type,
        final(selection).order == old(selection).order,
        final(selection).descending == old(selection).descending,
        final(selection).per_page == old(selection).per_page,
        final(selection).limit == old(selection).limit,
        final(selection).created_within_days == old(selection).created_within_days,
        final(selection).separate == old(selection).separate,
        final(selection)@.prepend_line == old(selection)@.prepend_line,
        final(selection)@.append_line == old(selection)@.append_line,
{
    parse_tags_chars(&str_chars(value), selection)
}

fn supported_key_chars(k: &[char]) -> (out: bool)
    ensures
        out == supported_key(k@),
{
    eq_lit(k, key_category_chars()) || eq_lit(k, key_tags_chars()) || eq_lit(k, key_tag_chars())
        || eq_lit(k, key_pagetype_chars()) || eq_lit(k, key_order_chars()) || eq_lit(k, key_limit_chars())
        || eq_lit(k, key_perpage_chars()) || eq_lit(k, key_created_at_chars()) || eq_lit(k, key_separate_chars())
        || eq_lit(k, key_prependline_chars()) || eq_lit(k, key_appendline_chars())
}

fn first_unsupported_chars(attributes: &Attributes) -> (out: Option<Vec<char>>)
    ensures
        match out {
            Some(k) => first_unsupported(attributes@, 0) == Some(k@),
            None => first_unsupported(attributes@, 0) is None,
        },
{
    let ghost m = attributes@;
    let mut i: usize = 0;
    while i < attributes.entries.len()
        invariant
            i <= attributes.entries.len(),
            m == attributes@,
            first_unsupported(m, 0) == first_unsupported(m, i as int),
        decreases attributes.entries.len() - i,
    {
        let k = str_chars(attributes.entries[i].0.as_str());
        assert(m[i as int].0 == k@);
        if !supported_key_chars(&k) {
            return Some(k);
        }
        i += 1;
    }
    None
}

fn option_string(v: Option<Vec<char>>) -> (out: Option<String>)
    ensures
        opt_view(out) == match v { Some(c) => Some(c@), None => None },
{
    match v {
        Some(c) => Some(string_from_chars(&c)),
        None => None,
    }
}

pub fn parse_selection(attributes: &Attributes, current_category: &str) -> (out: Result<Selection, String>)
    ensures
        match out {
            Ok(sel) => parse_selection_spec(attributes@, current_category@) == Ok::<_, Seq<char>>(sel@),
            Err(e) => parse_selection_spec(attributes@, current_category@) == Err::<SelectionView, _>(e@),
        },
{
    let ghost es = attributes@;
    let current = str_chars(current_category);
    match first_unsupported_chars(attributes) {
        Some(k) => return Err(concat_message(unsupported_argument_prefix_chars(), &k)),
        None => {},
    }
    let tags = attributes.get_chars(&key_tags_chars());
    let tag = attributes.get_chars(&key_tag_chars());
    if tags.is_some() && tag.is_some() {
        return Err(message(both_tags_message_chars()));
    }
    let page_type = match parse_page_type_chars(attributes.get_chars(&key_pagetype_chars()).as_ref()) {
        Ok(t) => t,
        Err(e) => return Err(e),
    };
    let per_page_arg = match parse_number_chars(attributes, &key_perpage_chars()) {
        Ok(n) => n,
        Err(e) => return Err(e),
    };
    let limit = match parse_number_chars(attributes, &key_limit_chars()) {
        Ok(n) => n,
        Err(e) => return Err(e),
    };
    let created_within_days = match attributes.get_chars(&key_created_at_chars()) {
        Some(v) => match parse_last_days_chars(&v) {
            Ok(d) => Some(d),
            Err(e) => return Err(e),
        },
        None => None,
    };
    let separate = match parse_separate_chars(attributes.get_chars(&key_separate_chars()).as_ref()) {
        Ok(b) => b,
        Err(e) => return Err(e),
    };
    let order_arg = attributes.get_chars(&key_order_chars());
    let order = match &order_arg {
        Some(v) => match parse_order_chars(v) {
            Ok(o) => o,
            Err(e) => return Err(e),
        },
        None => (OrderField::CreatedAt, true),
    };
    let per_page = match per_page_arg {
        Some(n) => if n <= MAX_PER_PAGE { n } else { MAX_PER_PAGE },
        None => DEFAULT_PER_PAGE,
    };
    let mut selection = Selection {
        all_categories: false,
        categories: Vec::new(),
        excluded_categories: Vec::new(),
        any_tags: Vec::new(),
        all_tags: Vec::new(),
        excluded_tags: Vec::new(),
        untagged: false,
        page_type,
        order: order.0,
        descending: order.1,
        per_page,
        limit,
        created_within_days,
        separate,
        prepend_line: option_string(attributes.get_chars(&key_prependline_chars())),
        append_line: option_string(attributes.get_chars(&key_appendline_chars())),
    };
    assert(strings_view(selection.categories@) =~= seq![]);
    assert(strings_view(selection.excluded_categories@) =~= seq![]);
    assert(strings_view(selection.any_tags@) =~= seq![]);
    assert(strings_view(selection.all_tags@) =~= seq![]);
    assert(strings_view(selection.excluded_tags@) =~= seq![]);
    parse_categories_chars(attributes.get_chars(&key_category_chars()).as_ref(), &current, &mut selection);
    let tag_value = if tags.is_some() { tags } else { tag };
    match &tag_value {
        Some(v) => parse_tags_chars(v, &mut selection),
        None => {},
    }
    Ok(selection)
}

} // verus!
