//! Limits on include expansion, and what stands in for an include whose
//! page is unavailable.

use crate::error::{Error, ErrorType, error_is};
use crate::text::{chars_eq, str_chars, string_from_chars};
use vstd::prelude::*;

verus! {

/// The error for includes nested too deep.
pub open spec fn nesting_limit_message() -> Seq<char> {
    seq!['i', 'n', 'c', 'l', 'u', 'd', 'e', ' ', 'e', 'x', 'p', 'a', 'n', 's', 'i', 'o', 'n', ' ', 'e', 'x', 'c', 'e', 'e', 'd', 's', ' ', 'i', 't', 's', ' ', 'n', 'e', 's', 't', 'i', 'n', 'g', ' ', 'l', 'i', 'm', 'i', 't']
}

pub fn nesting_limit_message_chars() -> (out: Vec<char>)
    ensures
        out@ == nesting_limit_message(),
{
    vec!['i', 'n', 'c', 'l', 'u', 'd', 'e', ' ', 'e', 'x', 'p', 'a', 'n', 's', 'i', 'o', 'n', ' ', 'e', 'x', 'c', 'e', 'e', 'd', 's', ' ', 'i', 't', 's', ' ', 'n', 'e', 's', 't', 'i', 'n', 'g', ' ', 'l', 'i', 'm', 'i', 't']
}

/// The error for too many includes or too much text.
pub open spec fn work_limit_message() -> Seq<char> {
    seq!['i', 'n', 'c', 'l', 'u', 'd', 'e', ' ', 'e', 'x', 'p', 'a', 'n', 's', 'i', 'o', 'n', ' ', 'e', 'x', 'c', 'e', 'e', 'd', 's', ' ', 'i', 't', 's', ' ', 'w', 'o', 'r', 'k', ' ', 'l', 'i', 'm', 'i', 't']
}

pub fn work_limit_message_chars() -> (out: Vec<char>)
    ensures
        out@ == work_limit_message(),
{
    vec!['i', 'n', 'c', 'l', 'u', 'd', 'e', ' ', 'e', 'x', 'p', 'a', 'n', 's', 'i', 'o', 'n', ' ', 'e', 'x', 'c', 'e', 'e', 'd', 's', ' ', 'i', 't', 's', ' ', 'w', 'o', 'r', 'k', ' ', 'l', 'i', 'm', 'i', 't']
}

/// The error for an expansion that grew too large.
pub open spec fn size_limit_message() -> Seq<char> {
    seq!['i', 'n', 'c', 'l', 'u', 'd', 'e', ' ', 'e', 'x', 'p', 'a', 'n', 's', 'i', 'o', 'n', ' ', 'e', 'x', 'c', 'e', 'e', 'd', 's', ' ', 'i', 't', 's', ' ', 's', 'i', 'z', 'e', ' ', 'l', 'i', 'm', 'i', 't']
}

pub fn size_limit_message_chars() -> (out: Vec<char>)
    ensures
        out@ == size_limit_message(),
{
    vec!['i', 'n', 'c', 'l', 'u', 'd', 'e', ' ', 'e', 'x', 'p', 'a', 'n', 's', 'i', 'o', 'n', ' ', 'e', 'x', 'c', 'e', 'e', 'd', 's', ' ', 'i', 't', 's', ' ', 's', 'i', 'z', 'e', ' ', 'l', 'i', 'm', 'i', 't']
}

/// What stands in for an include whose page is unavailable.
pub open spec fn no_such_include_text() -> Seq<char> {
    seq!['[', '[', 'd', 'i', 'v', ' ', 'c', 'l', 'a', 's', 's', '=', '"', 'e', 'r', 'r', 'o', 'r', '-', 'b', 'l', 'o', 'c', 'k', '"', ']', ']', '\n', 'I', 'n', 'c', 'l', 'u', 'd', 'e', 'd', ' ', 'p', 'a', 'g', 'e', ' ', 'u', 'n', 'a', 'v', 'a', 'i', 'l', 'a', 'b', 'l', 'e', '.', '\n', '[', '[', '/', 'd', 'i', 'v', ']', ']']
}

pub fn no_such_include_text_chars() -> (out: Vec<char>)
    ensures
        out@ == no_such_include_text(),
{
    vec!['[', '[', 'd', 'i', 'v', ' ', 'c', 'l', 'a', 's', 's', '=', '"', 'e', 'r', 'r', 'o', 'r', '-', 'b', 'l', 'o', 'c', 'k', '"', ']', ']', '\n', 'I', 'n', 'c', 'l', 'u', 'd', 'e', 'd', ' ', 'p', 'a', 'g', 'e', ' ', 'u', 'n', 'a', 'v', 'a', 'i', 'l', 'a', 'b', 'l', 'e', '.', '\n', '[', '[', '/', 'd', 'i', 'v', ']', ']']
}

pub const MAX_INCLUDE_DEPTH: usize = 16;
pub const MAX_INCLUDE_DIRECTIVES: usize = 4096;
pub const MAX_EXPANDED_BYTES: usize = 4194304;

/// Whether another round of include expansion may run: fewer than 16 rounds
/// so far, at most 4096 include directives in all and at most 4 MiB of
/// source.
pub fn check_work_limits(depth: usize, directives: usize, source_bytes: usize) -> (out: Result<(), Error>)
    ensures
        out is Ok <==> depth < MAX_INCLUDE_DEPTH && directives <= MAX_INCLUDE_DIRECTIVES && source_bytes <= MAX_EXPANDED_BYTES,
        depth >= MAX_INCLUDE_DEPTH ==> (out matches Err(e) && error_is(e, ErrorType::Render, nesting_limit_message())),
        depth < MAX_INCLUDE_DEPTH && out is Err ==> (out matches Err(e) && error_is(e, ErrorType::Render, work_limit_message())),
{
    if depth >= MAX_INCLUDE_DEPTH {
        return Err(Error::new(string_from_chars(&nesting_limit_message_chars()), ErrorType::Render));
    }
    if directives > MAX_INCLUDE_DIRECTIVES || source_bytes > MAX_EXPANDED_BYTES {
        return Err(Error::new(string_from_chars(&work_limit_message_chars()), ErrorType::Render));
    }
    Ok(())
}

/// An expansion may grow to at most 4 MiB.
pub fn check_expanded_size(bytes: usize) -> (out: Result<(), Error>)
    ensures
        out is Ok <==> bytes <= MAX_EXPANDED_BYTES,
        out matches Err(e) ==> error_is(e, ErrorType::Render, size_limit_message()),
{
    if bytes > MAX_EXPANDED_BYTES {
        return Err(Error::new(string_from_chars(&size_limit_message_chars()), ErrorType::Render));
    }
    Ok(())
}

/// What the expansion does with the current source.
#[derive(Debug, Clone, Copy, PartialEq, Eq, Structural)]
pub enum IncludeRound {
    /// No include directive is left: the source is final.
    Done,
    /// Fetch the included pages and substitute them.
    Expand,
}

/// How far an include expansion has gone: the rounds run so far and the
/// directives met in them.
#[derive(Debug, Clone, Copy, PartialEq, Eq, Structural)]
pub struct IncludeExpansion {
    pub depth: usize,
    pub directives: usize,
}

impl IncludeExpansion {
    /// Within the limits: an expansion past them has already failed.
    pub open spec fn within_limits(self) -> bool {
        self.depth <= MAX_INCLUDE_DEPTH && self.directives <= MAX_INCLUDE_DIRECTIVES
    }

    /// No round run yet.
    pub fn new() -> (out: IncludeExpansion)
        ensures
            out.depth == 0,
            out.directives == 0,
            out.within_limits(),
    {
        IncludeExpansion { depth: 0, directives: 0 }
    }

    /// The start of a round, given the include directives found in the
    /// current source and its size in bytes. Without directives the
    /// expansion is done. Otherwise the directives are counted and the work
    /// limits checked; a round that passes them is counted as run. So an
    /// expansion runs at most 16 rounds.
    pub fn begin_round(&mut self, found: usize, source_bytes: usize) -> (out: Result<IncludeRound, Error>)
        requires
            old(self).within_limits(),
        ensures
            found == 0 ==> out == Ok::<IncludeRound, Error>(IncludeRound::Done) && *final(self) == *old(self),
            found > 0 ==> (out is Ok <==> old(self).depth < MAX_INCLUDE_DEPTH
                && old(self).directives + found <= MAX_INCLUDE_DIRECTIVES
                && source_bytes <= MAX_EXPANDED_BYTES),
            found > 0 && out is Ok ==> out == Ok::<IncludeRound, Error>(IncludeRound::Expand)
                && final(self).depth == old(self).depth + 1
                && final(self).directives == old(self).directives + found,
            found > 0 && old(self).depth >= MAX_INCLUDE_DEPTH ==> (out matches Err(e) && error_is(e, ErrorType::Render, nesting_limit_message())),
            found > 0 && old(self).depth < MAX_INCLUDE_DEPTH && out is Err ==> (out matches Err(e) && error_is(e, ErrorType::Render, work_limit_message())),
            out is Err ==> *final(self) == *old(self),
            final(self).within_limits(),
    {
        if found == 0 {
            return Ok(IncludeRound::Done);
        }
        let directives = if found > MAX_INCLUDE_DIRECTIVES { MAX_INCLUDE_DIRECTIVES + 1 } else { self.directives + found };
        match check_work_limits(self.depth, directives, source_bytes) {
            Err(e) => Err(e),
            Ok(()) => {
                self.depth = self.depth + 1;
                self.directives = directives;
                Ok(IncludeRound::Expand)
            },
        }
    }
}

/// An include names a page of this site when it names no site or this one.
pub fn is_local(site: Option<&str>, site_slug: &str) -> (out: bool)
    ensures
        out == match site { Some(s) => s@ == site_slug@, None => true },
{
    match site {
        Some(s) => chars_eq(&str_chars(s), &str_chars(site_slug)),
        None => true,
    }
}

/// What stands in for an include whose page is unavailable.
pub fn no_such_include() -> (out: String)
    ensures
        out@ == no_such_include_text(),
{
    string_from_chars(&no_such_include_text_chars())
}

} // verus!
