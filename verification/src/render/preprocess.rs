//! The last text step before FTML tokenizes a page: Wikidot comments are
//! removed, then FTML's own preprocessor normalizes newlines, whitespace and
//! typography.

use crate::render::wikidot_comments::{strip_comments, strip_from};
use vstd::prelude::*;

verus! {

/// What FTML's preprocessor makes of a text.
pub uninterp spec fn ftml_preprocessed(text: Seq<char>) -> Seq<char>;

/// `ftml::preprocess`, which rewrites a text in place: DOS and Mac newlines,
/// whitespace-only lines, backslash-joined lines, tabs, leading and trailing
/// newlines, and Wikidot's typography (quotes, dashes, ellipses). Claimed: it
/// returns, and its result depends on the text alone; what the result is
/// stays unstated beyond that name.
#[verifier::external_body]
fn ftml_preprocess(text: String) -> (out: String)
    ensures
        out@ == ftml_preprocessed(text@),
{
    let mut text = text;
    ftml::preprocess(&mut text);
    text
}

/// The wikitext that FTML tokenizes, from a page source whose show-to
/// regions, includes and ListPages modules are already expanded: its
/// comments are removed, then FTML's preprocessor runs on what is left.
pub fn finish_preprocessing(source: String) -> (out: String)
    ensures
        out@ == ftml_preprocessed(strip_from(source@, 0)),
{
    ftml_preprocess(strip_comments(source))
}

} // verus!
