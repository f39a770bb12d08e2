//! Wikidot `:snippets:suo` "show to" regions, which reveal content to listed users.
//!
//! Wikidot sends nothing to anonymous visitors and hides a region with CSS from
//! signed-in users it does not list. Compiled HTML here is shared by every
//! reader, so it omits every region; a signed-in viewer listed by a region gets
//! that fragment rendered for them at view time with the region's content kept.
//! Positions that its public functions take and return are byte offsets, as `str`
//! counts them; the specs index characters, in a source and its ASCII-lowercase copy alike.

use crate::search::utf8_len;
use crate::text::{matches_at, byte_offset, byte_offset_of, all_digits, chars_eq, chars_find_from, chars_lower_ascii, chars_split, chars_sub, chars_trim, find_from, is_ascii_digit, lemma_find_from_bounds, lower_ascii_seq, push_sub, split_on, str_chars, string_from_chars, trim};
use vstd::prelude::*;

verus! {

/// Opening of a region, in lowercase.
pub open spec fn begin_marker() -> Seq<char> {
    seq!['[', '[', 'i', 'n', 'c', 'l', 'u', 'd', 'e', ' ', ':', 's', 'n', 'i', 'p', 'p', 'e', 't', 's', ':', 's', 'u', 'o', ' ', 'b', 'e', 'g', 'i', 'n', ' ', 'c', 'o', 'd', 'e']
}

pub fn begin_marker_chars() -> (out: Vec<char>)
    ensures
        out@ == begin_marker(),
{
    vec!['[', '[', 'i', 'n', 'c', 'l', 'u', 'd', 'e', ' ', ':', 's', 'n', 'i', 'p', 'p', 'e', 't', 's', ':', 's', 'u', 'o', ' ', 'b', 'e', 'g', 'i', 'n', ' ', 'c', 'o', 'd', 'e']
}

/// Closing of a region, in lowercase.
pub open spec fn end_marker() -> Seq<char> {
    seq!['[', '[', 'i', 'n', 'c', 'l', 'u', 'd', 'e', ' ', ':', 's', 'n', 'i', 'p', 'p', 'e', 't', 's', ':', 's', 'u', 'o', ' ', 'e', 'n', 'd', ' ', 'c', 'o', 'd', 'e', ']', ']']
}

pub fn end_marker_chars() -> (out: Vec<char>)
    ensures
        out@ == end_marker(),
{
    vec!['[', '[', 'i', 'n', 'c', 'l', 'u', 'd', 'e', ' ', ':', 's', 'n', 'i', 'p', 'p', 'e', 't', 's', ':', 's', 'u', 'o', ' ', 'e', 'n', 'd', ' ', 'c', 'o', 'd', 'e', ']', ']']
}

/// The end of a directive header.
pub open spec fn close_brackets() -> Seq<char> {
    seq![']', ']']
}

pub fn close_brackets_chars() -> (out: Vec<char>)
    ensures
        out@ == close_brackets(),
{
    vec![']', ']']
}

/// The argument naming the region type.
pub open spec fn type_key() -> Seq<char> {
    seq!['t', 'y', 'p', 'e']
}

pub fn type_key_chars() -> (out: Vec<char>)
    ensures
        out@ == type_key(),
{
    vec!['t', 'y', 'p', 'e']
}

/// The region type handled here.
pub open spec fn showto_value() -> Seq<char> {
    seq!['s', 'h', 'o', 'w', 't', 'o']
}

pub fn showto_value_chars() -> (out: Vec<char>)
    ensures
        out@ == showto_value(),
{
    vec!['s', 'h', 'o', 'w', 't', 'o']
}

/// The prefix of the arguments that list users.
pub open spec fn user_prefix() -> Seq<char> {
    seq!['u', 's', 'e', 'r']
}

pub fn user_prefix_chars() -> (out: Vec<char>)
    ensures
        out@ == user_prefix(),
{
    vec!['u', 's', 'e', 'r']
}

/// A `type=showto` region: `start..end` spans the markers, `body_start..body_end`
/// their content.
#[derive(Clone, Copy, Debug, PartialEq, Eq)]
pub struct Region {
    pub start: usize,
    pub body_start: usize,
    pub body_end: usize,
    pub end: usize,
    pub lists_viewer: bool,
}

/// `piece` as a `key=value` argument, both sides trimmed.
pub open spec fn argument_of(piece: Seq<char>) -> Option<(Seq<char>, Seq<char>)> {
    match find_from(piece, seq!['='], 0) {
        Some(e) => Some((trim(piece.subrange(0, e)), trim(piece.subrange(e + 1, piece.len() as int)))),
        None => None,
    }
}

/// The `key=value` arguments among `pieces`, in order.
pub open spec fn arguments_of(pieces: Seq<Seq<char>>) -> Seq<(Seq<char>, Seq<char>)>
    decreases pieces.len(),
{
    if pieces.len() == 0 {
        seq![]
    } else {
        let rest = arguments_of(pieces.drop_last());
        match argument_of(pieces.last()) {
            Some(a) => rest.push(a),
            None => rest,
        }
    }
}

/// The `|`-separated `key=value` arguments of a region header.
pub open spec fn header_args(header: Seq<char>) -> Seq<(Seq<char>, Seq<char>)> {
    arguments_of(split_on(header, '|'))
}

pub open spec fn header_is_show_to(header: Seq<char>) -> bool {
    exists|i: int| 0 <= i < header_args(header).len()
        && #[trigger] header_args(header)[i] == (type_key(), showto_value())
}

/// `user`, `user0` ... `user99`: `user` followed by ASCII digits only.
pub open spec fn is_user_key(key: Seq<char>) -> bool {
    key.len() >= 4 && key.take(4) == user_prefix() && all_digits(key.skip(4))
}

pub open spec fn header_lists(header: Seq<char>, viewer: Seq<char>) -> bool {
    exists|i: int| 0 <= i < header_args(header).len() && {
        let (key, value) = #[trigger] header_args(header)[i];
        is_user_key(key) && value.len() > 0 && value == viewer
    }
}

/// The regions of `lower` (an ASCII-lowercase source) found from `search` on.
/// A region without an end marker runs to the end of the source.
pub open spec fn regions_from(lower: Seq<char>, viewer: Option<Seq<char>>, search: int) -> Seq<Region>
    decreases lower.len() - search,
{
    match find_from(lower, begin_marker(), search) {
        None => seq![],
        Some(start) => match find_from(lower, close_brackets(), start) {
            None => seq![],
            Some(header_end) => {
                let header = lower.subrange(start, header_end);
                let after = header_end + 2;
                if !(search < after <= lower.len()) {
                    seq![]
                } else if !header_is_show_to(header) {
                    regions_from(lower, viewer, after)
                } else {
                    let (body_end, end) = match find_from(lower, end_marker(), after) {
                        Some(o) => (o, o + end_marker().len()),
                        None => (lower.len() as int, lower.len() as int),
                    };
                    let region = Region {
                        start: start as usize,
                        body_start: after as usize,
                        body_end: body_end as usize,
                        end: end as usize,
                        lists_viewer: match viewer {
                            Some(v) => header_lists(header, v),
                            None => false,
                        },
                    };
                    if !(after <= end <= lower.len()) {
                        seq![]
                    } else {
                        seq![region] + regions_from(lower, viewer, end)
                    }
                }
            },
        },
    }
}

/// Every `type=showto` region is found wherever it stands: when a begin
/// marker at `p` opens a show-to header, and each begin marker between
/// `search` and `p` opens a complete header of another type that closes
/// before `p`, the regions found from `search` on start with one at `p`.
/// Headers of other types before it do not end the search.
pub proof fn lemma_show_to_region_found(lower: Seq<char>, viewer: Option<Seq<char>>, search: int, p: int)
    requires
        0 <= search <= p,
        lower.len() <= usize::MAX,
        matches_at(lower, p, begin_marker()),
        find_from(lower, close_brackets(), p) matches Some(he) && header_is_show_to(lower.subrange(p, he)),
        forall|q: int| search <= q < p && #[trigger] matches_at(lower, q, begin_marker()) ==>
            (find_from(lower, close_brackets(), q) matches Some(e) && e + 2 <= p && !header_is_show_to(lower.subrange(q, e))),
    ensures
        regions_from(lower, viewer, search).len() > 0,
        regions_from(lower, viewer, search)[0].start == p,
    decreases lower.len() - search,
{
    lemma_find_from_bounds(lower, begin_marker(), search);
    let start = find_from(lower, begin_marker(), search).unwrap();
    assert(start <= p);
    lemma_find_from_bounds(lower, close_brackets(), start);
    let header_end = find_from(lower, close_brackets(), start).unwrap();
    let after = header_end + 2;
    if start == p {
        lemma_find_from_bounds(lower, end_marker(), after);
        assert(search < after <= lower.len());
    } else {
        assert(matches_at(lower, start, begin_marker()));
        assert(search < after <= p);
        assert forall|q: int| after <= q < p && #[trigger] matches_at(lower, q, begin_marker()) implies
            (find_from(lower, close_brackets(), q) matches Some(e) && e + 2 <= p && !header_is_show_to(lower.subrange(q, e))) by {
            assert(search <= q);
        }
        lemma_show_to_region_found(lower, viewer, after, p);
    }
}

/// Text without a region's opening marker, in any case, is left unchanged
/// when show-to regions are stripped.
pub proof fn lemma_strip_without_regions(source: Seq<char>)
    requires
        find_from(lower_ascii_seq(source), begin_marker(), 0) is None,
    ensures
        cut_regions(source, regions_of(source, None), 0) == source,
{
    assert(regions_of(source, None) =~= Seq::<Region>::empty());
    assert(source.subrange(0, source.len() as int) =~= source);
}

/// Every region of `source` for `viewer` (lowercase user slug, `None` when anonymous).
pub open spec fn regions_of(source: Seq<char>, viewer: Option<Seq<char>>) -> Seq<Region> {
    regions_from(lower_ascii_seq(source), viewer, 0)
}

/// Regions lie in order inside the text, from `from` on.
pub open spec fn regions_ordered(regions: Seq<Region>, from: int, len: int) -> bool {
    &&& forall|i: int| 0 <= i < regions.len() ==> {
        let r = #[trigger] regions[i];
        from <= r.start && r.start < r.body_start && r.body_start <= r.body_end
            && r.body_end <= r.end && r.end <= len
    }
    &&& forall|i: int| 0 < i < regions.len() ==> (#[trigger] regions[i]).start >= regions[i - 1].end
}

pub proof fn lemma_regions_ordered(lower: Seq<char>, viewer: Option<Seq<char>>, search: int)
    requires
        0 <= search <= lower.len(),
        lower.len() <= usize::MAX,
    ensures
        regions_ordered(regions_from(lower, viewer, search), search, lower.len() as int),
    decreases lower.len() - search,
{
    lemma_find_from_bounds(lower, begin_marker(), search);
    match find_from(lower, begin_marker(), search) {
        None => {},
        Some(start) => {
            lemma_find_from_bounds(lower, close_brackets(), start);
            match find_from(lower, close_brackets(), start) {
                None => {},
                Some(header_end) => {
                    let header = lower.subrange(start, header_end);
                    let after = header_end + 2;
                    if !(search < after <= lower.len()) {
                    } else if !header_is_show_to(header) {
                        lemma_regions_ordered(lower, viewer, after);
                    } else {
                        lemma_find_from_bounds(lower, end_marker(), after);
                        let rs = regions_from(lower, viewer, search);
                        let end = match find_from(lower, end_marker(), after) {
                            Some(o) => o + end_marker().len(),
                            None => lower.len() as int,
                        };
                        if after <= end <= lower.len() {
                            lemma_regions_ordered(lower, viewer, end);
                            let tail = regions_from(lower, viewer, end);
                            assert(rs == seq![rs[0]] + tail);
                            assert forall|i: int| 0 < i < rs.len() implies (#[trigger] rs[i]).start >= rs[i - 1].end by {
                                assert(rs[i] == tail[i - 1]);
                                if i > 1 {
                                    assert(rs[i - 1] == tail[i - 2]);
                                }
                            }
                            assert forall|i: int| 0 <= i < rs.len() implies {
                                let r = #[trigger] rs[i];
                                search <= r.start && r.start < r.body_start && r.body_start <= r.body_end
                                    && r.body_end <= r.end && r.end <= lower.len()
                            } by {
                                if i > 0 {
                                    assert(rs[i] == tail[i - 1]);
                                } else {
                                    assert(start + begin_marker().len() <= lower.len());
                                    assert(header_end + 2 <= lower.len());
                                }
                            }
                        }
                    }
                },
            }
        },
    }
}

/// The region-free text: `source` from `copied` on with `regions` and their markers cut out.
pub open spec fn cut_regions(source: Seq<char>, regions: Seq<Region>, copied: int) -> Seq<char>
    decreases regions.len(),
{
    if regions.len() == 0 {
        source.subrange(copied, source.len() as int)
    } else {
        let r = regions[0];
        source.subrange(copied, r.start as int) + cut_regions(source, regions.drop_first(), r.end as int)
    }
}

/// `source` from `copied` on with each region in `regions` replaced by its content.
pub open spec fn unwrap_regions(source: Seq<char>, regions: Seq<Region>, copied: int) -> Seq<char>
    decreases regions.len(),
{
    if regions.len() == 0 {
        source.subrange(copied, source.len() as int)
    } else {
        let r = regions[0];
        source.subrange(copied, r.start as int) + source.subrange(r.body_start as int, r.body_end as int)
            + unwrap_regions(source, regions.drop_first(), r.end as int)
    }
}

/// The regions in `regions` that list the viewer, in order.
pub open spec fn listing(regions: Seq<Region>) -> Seq<Region>
    decreases regions.len(),
{
    if regions.len() == 0 {
        seq![]
    } else if regions[0].lists_viewer {
        seq![regions[0]] + listing(regions.drop_first())
    } else {
        listing(regions.drop_first())
    }
}

pub open spec fn view_of(viewer: Option<&[char]>) -> Option<Seq<char>> {
    match viewer {
        Some(v) => Some(v@),
        None => None,
    }
}

/// The `key=value` arguments of a region header, split at `|`, both sides trimmed.
pub fn header_arguments(header: &str) -> (out: Vec<(String, String)>)
    ensures
        out@.len() == header_args(header@).len(),
        forall|i: int| 0 <= i < out@.len() ==> (#[trigger] out@[i]).0@ == header_args(header@)[i].0
            && out@[i].1@ == header_args(header@)[i].1,
{
    let h = str_chars(header);
    let args = header_args_chars(&h);
    let mut out: Vec<(String, String)> = Vec::new();
    let mut i: usize = 0;
    while i < args.len()
        invariant
            i <= args.len(),
            args@.len() == header_args(header@).len(),
            forall|k: int| 0 <= k < args@.len() ==> (#[trigger] args@[k]).0@ == header_args(header@)[k].0
                && args@[k].1@ == header_args(header@)[k].1,
            out@.len() == i,
            forall|k: int| 0 <= k < i ==> (#[trigger] out@[k]).0@ == header_args(header@)[k].0
                && out@[k].1@ == header_args(header@)[k].1,
        decreases args.len() - i,
    {
        let key = string_from_chars(&args[i].0);
        let value = string_from_chars(&args[i].1);
        out.push((key, value));
        i += 1;
    }
    out
}

fn header_args_chars(header: &[char]) -> (out: Vec<(Vec<char>, Vec<char>)>)
    ensures
        out@.len() == header_args(header@).len(),
        forall|i: int| 0 <= i < out@.len() ==> (#[trigger] out@[i]).0@ == header_args(header@)[i].0
            && out@[i].1@ == header_args(header@)[i].1,
{
    let pieces = chars_split(header, '|');
    let ghost ps = pieces@.map_values(|w: Vec<char>| w@);
    let eq = vec!['='];
    let mut out: Vec<(Vec<char>, Vec<char>)> = Vec::new();
    let mut i: usize = 0;
    while i < pieces.len()
        invariant
            i <= pieces.len(),
            ps == pieces@.map_values(|w: Vec<char>| w@),
            ps == split_on(header@, '|'),
            eq@ == seq!['='],
            out@.len() == arguments_of(ps.take(i as int)).len(),
            forall|k: int| 0 <= k < out@.len() ==> (#[trigger] out@[k]).0@ == arguments_of(ps.take(i as int))[k].0
                && out@[k].1@ == arguments_of(ps.take(i as int))[k].1,
        decreases pieces.len() - i,
    {
        let piece = &pieces[i];
        assert(ps.take(i + 1).drop_last() =~= ps.take(i as int));
        assert(ps.take(i + 1).last() == piece@);
        match chars_find_from(piece, &eq, 0) {
            Some(e) => {
                proof {
                    lemma_find_from_bounds(piece@, eq@, 0);
                    assert(eq@.len() == 1);
                    assert(e + 1 <= piece@.len());
                }
                let key = chars_trim(&chars_sub(piece, 0, e));
                let value = chars_trim(&chars_sub(piece, e + 1, piece.len()));
                out.push((key, value));
            },
            None => {},
        }
        i += 1;
    }
    assert(ps.take(pieces@.len() as int) =~= ps);
    out
}

fn is_show_to_chars(header: &[char]) -> (out: bool)
    ensures
        out == header_is_show_to(header@),
{
    let args = header_args_chars(header);
    let t = type_key_chars();
    let v = showto_value_chars();
    let mut i: usize = 0;
    while i < args.len()
        invariant
            i <= args.len(),
            args@.len() == header_args(header@).len(),
            forall|k: int| 0 <= k < args@.len() ==> (#[trigger] args@[k]).0@ == header_args(header@)[k].0
                && args@[k].1@ == header_args(header@)[k].1,
            t@ == type_key(),
            v@ == showto_value(),
            forall|k: int| 0 <= k < i ==> #[trigger] header_args(header@)[k] != (type_key(), showto_value()),
        decreases args.len() - i,
    {
        if chars_eq(&args[i].0, &t) && chars_eq(&args[i].1, &v) {
            assert(header_args(header@)[i as int] == (type_key(), showto_value()));
            return true;
        }
        i += 1;
    }
    false
}

/// Whether a region header has the `type=showto` argument.
pub fn is_show_to(header: &str) -> (out: bool)
    ensures
        out == header_is_show_to(header@),
{
    is_show_to_chars(&str_chars(header))
}

fn is_user_key_chars(key: &[char]) -> (out: bool)
    ensures
        out == is_user_key(key@),
{
    if key.len() < 4 {
        return false;
    }
    let prefix = chars_sub(key, 0, 4);
    if !chars_eq(&prefix, &user_prefix_chars()) {
        return false;
    }
    let mut i: usize = 4;
    while i < key.len()
        invariant
            4 <= i <= key.len(),
            forall|k: int| 4 <= k < i ==> is_ascii_digit(#[trigger] key@[k]),
        decreases key.len() - i,
    {
        if !('0' <= key[i] && key[i] <= '9') {
            assert(!is_ascii_digit(key@.skip(4)[i - 4]));
            return false;
        }
        i += 1;
    }
    assert forall|k: int| 0 <= k < key@.skip(4).len() implies is_ascii_digit(#[trigger] key@.skip(4)[k]) by {
        assert(key@.skip(4)[k] == key@[k + 4]);
    }
    true
}

fn lists_user_chars(header: &[char], viewer: &[char]) -> (out: bool)
    ensures
        out == header_lists(header@, viewer@),
{
    let args = header_args_chars(header);
    let mut i: usize = 0;
    while i < args.len()
        invariant
            i <= args.len(),
            args@.len() == header_args(header@).len(),
            forall|k: int| 0 <= k < args@.len() ==> (#[trigger] args@[k]).0@ == header_args(header@)[k].0
                && args@[k].1@ == header_args(header@)[k].1,
            forall|k: int| 0 <= k < i ==> !({
                let (key, value) = #[trigger] header_args(header@)[k];
                is_user_key(key) && value.len() > 0 && value == viewer@
            }),
        decreases args.len() - i,
    {
        if is_user_key_chars(&args[i].0) && args[i].1.len() > 0 && chars_eq(&args[i].1, viewer) {
            let ghost a = header_args(header@)[i as int];
            assert(is_user_key(a.0) && a.1.len() > 0 && a.1 == viewer@);
            return true;
        }
        i += 1;
    }
    false
}

/// Whether a region header lists `viewer` among its `user`, `user0` ... arguments.
pub fn lists_user(header: &str, viewer: &str) -> (out: bool)
    ensures
        out == header_lists(header@, viewer@),
{
    lists_user_chars(&str_chars(header), &str_chars(viewer))
}

proof fn lemma_listing_empty(rs: Seq<Region>)
    ensures
        listing(rs).len() == 0 <==> forall|j: int| 0 <= j < rs.len() ==> !(#[trigger] rs[j]).lists_viewer,
    decreases rs.len(),
{
    if rs.len() > 0 {
        let t = rs.drop_first();
        lemma_listing_empty(t);
        if listing(rs).len() == 0 {
            assert(!rs[0].lists_viewer);
            assert forall|j: int| 0 <= j < rs.len() implies !(#[trigger] rs[j]).lists_viewer by {
                if j > 0 {
                    assert(rs[j] == t[j - 1]);
                }
            }
        } else {
            if !rs[0].lists_viewer {
                let j = choose|j: int| 0 <= j < t.len() && (#[trigger] t[j]).lists_viewer;
                assert(rs[j + 1] == t[j]);
            }
        }
    }
}

proof fn lemma_cut_step(src: Seq<char>, rs: Seq<Region>, i: int, copied: int)
    requires
        0 <= i < rs.len(),
    ensures
        cut_regions(src, rs.skip(i), copied) == src.subrange(copied, rs[i].start as int)
            + cut_regions(src, rs.skip(i + 1), rs[i].end as int),
{
    assert(rs.skip(i)[0] == rs[i]);
    assert(rs.skip(i).drop_first() =~= rs.skip(i + 1));
}

proof fn lemma_unwrap_step(src: Seq<char>, rs: Seq<Region>, i: int, copied: int)
    requires
        0 <= i < rs.len(),
    ensures
        rs[i].lists_viewer ==> unwrap_regions(src, listing(rs.skip(i)), copied)
            == src.subrange(copied, rs[i].start as int) + src.subrange(rs[i].body_start as int, rs[i].body_end as int)
            + unwrap_regions(src, listing(rs.skip(i + 1)), rs[i].end as int),
        !rs[i].lists_viewer ==> listing(rs.skip(i)) == listing(rs.skip(i + 1)),
{
    let r = rs[i];
    assert(rs.skip(i)[0] == r);
    assert(rs.skip(i).drop_first() =~= rs.skip(i + 1));
    if r.lists_viewer {
        let l1 = listing(rs.skip(i + 1));
        assert(listing(rs.skip(i)) == seq![r] + l1);
        assert((seq![r] + l1)[0] == r);
        assert((seq![r] + l1).drop_first() =~= l1);
    }
}

fn regions_chars(lower: &[char], viewer: Option<&[char]>) -> (out: Vec<Region>)
    ensures
        out@ == regions_from(lower@, view_of(viewer), 0),
{
    let begin = begin_marker_chars();
    let close = close_brackets_chars();
    let end_m = end_marker_chars();
    let ghost vw = view_of(viewer);
    let mut out: Vec<Region> = Vec::new();
    let mut search: usize = 0;
    loop
        invariant
            search <= lower.len(),
            begin@ == begin_marker(),
            close@ == close_brackets(),
            end_m@ == end_marker(),
            vw == view_of(viewer),
            out@ + regions_from(lower@, vw, search as int) == regions_from(lower@, vw, 0),
        decreases lower.len() - search,
    {
        proof { lemma_find_from_bounds(lower@, begin@, search as int); }
        let start = match chars_find_from(lower, &begin, search) {
            Some(start) => start,
            None => {
                assert(out@ + regions_from(lower@, vw, search as int) =~= out@);
                return out;
            },
        };
        proof { lemma_find_from_bounds(lower@, close@, start as int); }
        let header_end = match chars_find_from(lower, &close, start) {
            Some(e) => e,
            None => {
                assert(out@ + regions_from(lower@, vw, search as int) =~= out@);
                return out;
            },
        };
        let header = chars_sub(lower, start, header_end);
        let after = header_end + 2;
        if !is_show_to_chars(&header) {
            search = after;
            continue;
        }
        proof { lemma_find_from_bounds(lower@, end_m@, after as int); }
        let (body_end, end) = match chars_find_from(lower, &end_m, after) {
            Some(o) => (o, o + end_m.len()),
            None => (lower.len(), lower.len()),
        };
        let lists_viewer = match viewer {
            Some(v) => lists_user_chars(&header, v),
            None => false,
        };
        let region = Region { start, body_start: after, body_end, end, lists_viewer };
        let ghost before = out@;
        out.push(region);
        assert(regions_from(lower@, vw, search as int) == seq![region] + regions_from(lower@, vw, end as int));
        assert(out@ + regions_from(lower@, vw, end as int) =~= before + regions_from(lower@, vw, search as int));
        search = end;
    }
}

/// Every `type=showto` region of `lower` (an ASCII-lowercase source). A region
/// without an end marker runs to the end of the source. `viewer` is a lowercase
/// user slug; `None` (anonymous) is listed by no region.
pub fn show_to_regions(lower: &str, viewer: Option<&str>) -> (out: Vec<Region>)
    requires
        utf8_len(lower@) <= usize::MAX,
    ensures
        out@.len() == regions_from(lower@, match viewer { Some(v) => Some(v@), None => None }, 0).len(),
        forall|i: int| 0 <= i < out@.len() ==> region_bytes(#[trigger] out@[i],
            regions_from(lower@, match viewer { Some(v) => Some(v@), None => None }, 0)[i], lower@),
{
    let l = str_chars(lower);
    let regions = match viewer {
        Some(v) => {
            let vc = str_chars(v);
            regions_chars(&l, Some(vc.as_slice()))
        },
        None => regions_chars(&l, None),
    };
    let ghost spec_viewer = match viewer { Some(v) => Some(v@), None => None };
    proof {
        lemma_regions_ordered(l@, spec_viewer, 0);
    }
    let mut out: Vec<Region> = Vec::new();
    let mut i: usize = 0;
    while i < regions.len()
        invariant
            i <= regions@.len(),
            l@ == lower@,
            utf8_len(lower@) <= usize::MAX,
            regions@ == regions_from(lower@, spec_viewer, 0),
            regions_ordered(regions@, 0, lower@.len() as int),
            out@.len() == i,
            forall|k: int| 0 <= k < i ==> region_bytes(#[trigger] out@[k], regions@[k], lower@),
        decreases regions@.len() - i,
    {
        let r = &regions[i];
        assert(regions@[i as int] == *r);
        out.push(Region {
            start: byte_offset_of(&l, r.start),
            body_start: byte_offset_of(&l, r.body_start),
            body_end: byte_offset_of(&l, r.body_end),
            end: byte_offset_of(&l, r.end),
            lists_viewer: r.lists_viewer,
        });
        i = i + 1;
    }
    out
}

/// A region of `lower`, with its positions as byte offsets.
pub open spec fn region_bytes(b: Region, r: Region, lower: Seq<char>) -> bool {
    &&& b.start == byte_offset(lower, r.start as int)
    &&& b.body_start == byte_offset(lower, r.body_start as int)
    &&& b.body_end == byte_offset(lower, r.body_end as int)
    &&& b.end == byte_offset(lower, r.end as int)
    &&& b.lists_viewer == r.lists_viewer
}

/// Remove every `type=showto` region with its delimiters. A region without an end
/// marker hides the rest of the source; other region types are left unchanged.
pub fn strip_show_to_regions(source: String) -> (out: String)
    ensures
        out@ == cut_regions(source@, regions_of(source@, None), 0),
{
    let src = str_chars(source.as_str());
    let lower = chars_lower_ascii(&src);
    let regions = regions_chars(&lower, None);
    let ghost rs = regions@;
    assert(lower@.len() == lower.len());
    proof { lemma_regions_ordered(lower@, None, 0); }
    assert(rs.skip(0) =~= rs);
    if regions.len() == 0 {
        assert(src@.subrange(0, src@.len() as int) =~= src@);
        return source;
    }
    let mut out: Vec<char> = Vec::new();
    let mut copied: usize = 0;
    let mut i: usize = 0;
    while i < regions.len()
        invariant
            i <= regions.len(),
            rs == regions@,
            src@ == source@,
            lower@.len() == src@.len(),
            regions_ordered(rs, 0, src@.len() as int),
            copied <= src@.len(),
            i < rs.len() ==> copied <= rs[i as int].start,
            out@ + cut_regions(src@, rs.skip(i as int), copied as int) == cut_regions(src@, rs, 0),
        decreases regions.len() - i,
    {
        let r = regions[i];
        let ghost before = out@;
        push_sub(&mut out, &src, copied, r.start);
        proof { lemma_cut_step(src@, rs, i as int, copied as int); }
        assert(out@ + cut_regions(src@, rs.skip(i + 1), r.end as int) =~= before + cut_regions(src@, rs.skip(i as int), copied as int));
        copied = r.end;
        i += 1;
    }
    let ghost before = out@;
    push_sub(&mut out, &src, copied, src.len());
    assert(rs.skip(i as int) =~= seq![]);
    assert(out@ =~= before + cut_regions(src@, rs.skip(i as int), copied as int));
    assert(rs.skip(0) =~= rs);
    string_from_chars(&out)
}

/// Unwrap the regions that list `viewer` (a user slug, matched without regard to
/// ASCII case), keeping their content without the markers; other regions stay for
/// `strip_show_to_regions`. `None` when no region lists the viewer, so the shared
/// compiled HTML already applies.
pub fn reveal_show_to_regions(source: &str, viewer: &str) -> (out: Option<String>)
    ensures
        ({
            let rs = regions_of(source@, Some(lower_ascii_seq(viewer@)));
            &&& out is None <==> listing(rs).len() == 0
            &&& out matches Some(text) ==> text@ == unwrap_regions(source@, listing(rs), 0)
        }),
{
    let src = str_chars(source);
    let lower = chars_lower_ascii(&src);
    let v = chars_lower_ascii(&str_chars(viewer));
    let regions = regions_chars(&lower, Some(v.as_slice()));
    let ghost rs = regions@;
    assert(lower@.len() == lower.len());
    proof {
        lemma_regions_ordered(lower@, Some(v@), 0);
        lemma_listing_empty(rs);
    }
    let mut any = false;
    let mut k: usize = 0;
    while k < regions.len()
        invariant
            k <= regions.len(),
            rs == regions@,
            any == exists|j: int| 0 <= j < k && (#[trigger] rs[j]).lists_viewer,
        decreases regions.len() - k,
    {
        if regions[k].lists_viewer {
            any = true;
        }
        k += 1;
    }
    assert(rs.skip(0) =~= rs);
    if !any {
        return None;
    }
    let mut out: Vec<char> = Vec::new();
    let mut copied: usize = 0;
    let mut i: usize = 0;
    while i < regions.len()
        invariant
            i <= regions.len(),
            rs == regions@,
            src@ == source@,
            lower@.len() == src@.len(),
            regions_ordered(rs, 0, src@.len() as int),
            copied <= src@.len(),
            i < rs.len() ==> copied <= rs[i as int].start,
            out@ + unwrap_regions(src@, listing(rs.skip(i as int)), copied as int)
                == unwrap_regions(src@, listing(rs), 0),
        decreases regions.len() - i,
    {
        let r = regions[i];
        proof { lemma_unwrap_step(src@, rs, i as int, copied as int); }
        if r.lists_viewer {
            let ghost before = out@;
            push_sub(&mut out, &src, copied, r.start);
            push_sub(&mut out, &src, r.body_start, r.body_end);
            assert(out@ + unwrap_regions(src@, listing(rs.skip(i + 1)), r.end as int) =~= before + unwrap_regions(src@, listing(rs.skip(i as int)), copied as int));
            copied = r.end;
        } else {
            if i + 1 < regions.len() {
                assert(rs[i + 1].start >= rs[i as int].end);
            }
        }
        i += 1;
    }
    let ghost before = out@;
    push_sub(&mut out, &src, copied, src.len());
    assert(rs.skip(i as int) =~= seq![]);
    assert(out@ =~= before + unwrap_regions(src@, listing(rs.skip(i as int)), copied as int));
    Some(string_from_chars(&out))
}

} // verus!
