//! Drafts and previews of page edits: which base revision an edit builds
//! on, and which combinations of a preview's fields are accepted.

use crate::error::{Error, ErrorType, error_is};
use crate::names::Reference;
use crate::render::page_tokens::FormValue;
use crate::text::{str_chars, string_from_chars};
use vstd::prelude::*;

verus! {

/// Refuses a draft of an existing page without its base.
pub open spec fn base_required_message() -> Seq<char> {
    seq!['l', 'a', 's', 't', '_', 'r', 'e', 'v', 'i', 's', 'i', 'o', 'n', '_', 'i', 'd', ' ', 'i', 's', ' ', 'r', 'e', 'q', 'u', 'i', 'r', 'e', 'd', ' ', 'f', 'o', 'r', ' ', 'e', 'x', 'i', 's', 't', 'i', 'n', 'g', ' ', 'p', 'a', 'g', 'e', ' ', 'd', 'r', 'a', 'f', 't', 's']
}

pub fn base_required_message_chars() -> (out: Vec<char>)
    ensures
        out@ == base_required_message(),
{
    vec!['l', 'a', 's', 't', '_', 'r', 'e', 'v', 'i', 's', 'i', 'o', 'n', '_', 'i', 'd', ' ', 'i', 's', ' ', 'r', 'e', 'q', 'u', 'i', 'r', 'e', 'd', ' ', 'f', 'o', 'r', ' ', 'e', 'x', 'i', 's', 't', 'i', 'n', 'g', ' ', 'p', 'a', 'g', 'e', ' ', 'd', 'r', 'a', 'f', 't', 's']
}

/// Refuses a base that is not the latest revision.
pub open spec fn stale_base_message() -> Seq<char> {
    seq!['t', 'h', 'e', ' ', 'p', 'a', 'g', 'e', ' ', 'c', 'h', 'a', 'n', 'g', 'e', 'd', ' ', 's', 'i', 'n', 'c', 'e', ' ', 'i', 't', 's', ' ', 'l', 'a', 's', 't', ' ', 'r', 'e', 'v', 'i', 's', 'i', 'o', 'n', ' ', 'w', 'a', 's', ' ', 'r', 'e', 'a', 'd']
}

pub fn stale_base_message_chars() -> (out: Vec<char>)
    ensures
        out@ == stale_base_message(),
{
    vec!['t', 'h', 'e', ' ', 'p', 'a', 'g', 'e', ' ', 'c', 'h', 'a', 'n', 'g', 'e', 'd', ' ', 's', 'i', 'n', 'c', 'e', ' ', 'i', 't', 's', ' ', 'l', 'a', 's', 't', ' ', 'r', 'e', 'v', 'i', 's', 'i', 'o', 'n', ' ', 'w', 'a', 's', ' ', 'r', 'e', 'a', 'd']
}

/// Refuses a preview with neither or both sources.
pub open spec fn one_mode_message() -> Seq<char> {
    seq!['e', 'x', 'a', 'c', 't', 'l', 'y', ' ', 'o', 'n', 'e', ' ', 'o', 'f', ' ', 'w', 'i', 'k', 'i', 't', 'e', 'x', 't', ' ', 'o', 'r', ' ', 'f', 'o', 'r', 'm', '_', 'u', 'p', 'd', 'a', 't', 'e', 's', ' ', 'i', 's', ' ', 'r', 'e', 'q', 'u', 'i', 'r', 'e', 'd']
}

pub fn one_mode_message_chars() -> (out: Vec<char>)
    ensures
        out@ == one_mode_message(),
{
    vec!['e', 'x', 'a', 'c', 't', 'l', 'y', ' ', 'o', 'n', 'e', ' ', 'o', 'f', ' ', 'w', 'i', 'k', 'i', 't', 'e', 'x', 't', ' ', 'o', 'r', ' ', 'f', 'o', 'r', 'm', '_', 'u', 'p', 'd', 'a', 't', 'e', 's', ' ', 'i', 's', ' ', 'r', 'e', 'q', 'u', 'i', 'r', 'e', 'd']
}

/// Refuses form updates without a published base.
pub open spec fn form_base_message() -> Seq<char> {
    seq!['f', 'o', 'r', 'm', '_', 'u', 'p', 'd', 'a', 't', 'e', 's', ' ', 'r', 'e', 'q', 'u', 'i', 'r', 'e', 's', ' ', 'a', 'n', ' ', 'e', 'x', 'i', 's', 't', 'i', 'n', 'g', ' ', 'p', 'a', 'g', 'e', ' ', 'a', 'n', 'd', ' ', 'l', 'a', 's', 't', '_', 'r', 'e', 'v', 'i', 's', 'i', 'o', 'n', '_', 'i', 'd']
}

pub fn form_base_message_chars() -> (out: Vec<char>)
    ensures
        out@ == form_base_message(),
{
    vec!['f', 'o', 'r', 'm', '_', 'u', 'p', 'd', 'a', 't', 'e', 's', ' ', 'r', 'e', 'q', 'u', 'i', 'r', 'e', 's', ' ', 'a', 'n', ' ', 'e', 'x', 'i', 's', 't', 'i', 'n', 'g', ' ', 'p', 'a', 'g', 'e', ' ', 'a', 'n', 'd', ' ', 'l', 'a', 's', 't', '_', 'r', 'e', 'v', 'i', 's', 'i', 'o', 'n', '_', 'i', 'd']
}

/// Refuses a preview of a new page without a title.
pub open spec fn title_required_message() -> Seq<char> {
    seq!['t', 'i', 't', 'l', 'e', ' ', 'i', 's', ' ', 'r', 'e', 'q', 'u', 'i', 'r', 'e', 'd', ' ', 'f', 'o', 'r', ' ', 'a', ' ', 'n', 'e', 'w', ' ', 'p', 'a', 'g', 'e']
}

pub fn title_required_message_chars() -> (out: Vec<char>)
    ensures
        out@ == title_required_message(),
{
    vec!['t', 'i', 't', 'l', 'e', ' ', 'i', 's', ' ', 'r', 'e', 'q', 'u', 'i', 'r', 'e', 'd', ' ', 'f', 'o', 'r', ' ', 'a', ' ', 'n', 'e', 'w', ' ', 'p', 'a', 'g', 'e']
}

/// Refuses a draft whose page moved away.
pub open spec fn origin_moved_message() -> Seq<char> {
    seq!['p', 'a', 'g', 'e', ' ', 'd', 'r', 'a', 'f', 't', '\'', 's', ' ', 'o', 'r', 'i', 'g', 'i', 'n', 'a', 'l', ' ', 'p', 'a', 'g', 'e', ' ', 'i', 's', ' ', 'n', 'o', ' ', 'l', 'o', 'n', 'g', 'e', 'r', ' ', 'a', 't', ' ', 't', 'h', 'i', 's', ' ', 's', 'l', 'u', 'g']
}

pub fn origin_moved_message_chars() -> (out: Vec<char>)
    ensures
        out@ == origin_moved_message(),
{
    vec!['p', 'a', 'g', 'e', ' ', 'd', 'r', 'a', 'f', 't', '\'', 's', ' ', 'o', 'r', 'i', 'g', 'i', 'n', 'a', 'l', ' ', 'p', 'a', 'g', 'e', ' ', 'i', 's', ' ', 'n', 'o', ' ', 'l', 'o', 'n', 'g', 'e', 'r', ' ', 'a', 't', ' ', 't', 'h', 'i', 's', ' ', 's', 'l', 'u', 'g']
}

/// Refuses a draft of a page the user may not edit.
pub open spec fn draft_denied_message() -> Seq<char> {
    seq!['p', 'a', 'g', 'e', ' ', 'd', 'r', 'a', 'f', 't', ' ', 'a', 'c', 'c', 'e', 's', 's', ' ', 'd', 'e', 'n', 'i', 'e', 'd']
}

pub fn draft_denied_message_chars() -> (out: Vec<char>)
    ensures
        out@ == draft_denied_message(),
{
    vec!['p', 'a', 'g', 'e', ' ', 'd', 'r', 'a', 'f', 't', ' ', 'a', 'c', 'c', 'e', 's', 's', ' ', 'd', 'e', 'n', 'i', 'e', 'd']
}

/// Refuses a draft of a page the user may not create.
pub open spec fn draft_create_denied_message() -> Seq<char> {
    seq!['p', 'a', 'g', 'e', ' ', 'd', 'r', 'a', 'f', 't', ' ', 'c', 'r', 'e', 'a', 't', 'e', ' ', 'a', 'c', 'c', 'e', 's', 's', ' ', 'd', 'e', 'n', 'i', 'e', 'd']
}

pub fn draft_create_denied_message_chars() -> (out: Vec<char>)
    ensures
        out@ == draft_create_denied_message(),
{
    vec!['p', 'a', 'g', 'e', ' ', 'd', 'r', 'a', 'f', 't', ' ', 'c', 'r', 'e', 'a', 't', 'e', ' ', 'a', 'c', 'c', 'e', 's', 's', ' ', 'd', 'e', 'n', 'i', 'e', 'd']
}

/// Refuses a preview of a page the user may not edit.
pub open spec fn preview_denied_message() -> Seq<char> {
    seq!['p', 'a', 'g', 'e', ' ', 'p', 'r', 'e', 'v', 'i', 'e', 'w', ' ', 'a', 'c', 'c', 'e', 's', 's', ' ', 'd', 'e', 'n', 'i', 'e', 'd']
}

pub fn preview_denied_message_chars() -> (out: Vec<char>)
    ensures
        out@ == preview_denied_message(),
{
    vec!['p', 'a', 'g', 'e', ' ', 'p', 'r', 'e', 'v', 'i', 'e', 'w', ' ', 'a', 'c', 'c', 'e', 's', 's', ' ', 'd', 'e', 'n', 'i', 'e', 'd']
}

/// Refuses a preview of a page the user may not create.
pub open spec fn preview_create_denied_message() -> Seq<char> {
    seq!['p', 'a', 'g', 'e', ' ', 'p', 'r', 'e', 'v', 'i', 'e', 'w', ' ', 'c', 'r', 'e', 'a', 't', 'e', ' ', 'a', 'c', 'c', 'e', 's', 's', ' ', 'd', 'e', 'n', 'i', 'e', 'd']
}

pub fn preview_create_denied_message_chars() -> (out: Vec<char>)
    ensures
        out@ == preview_create_denied_message(),
{
    vec!['p', 'a', 'g', 'e', ' ', 'p', 'r', 'e', 'v', 'i', 'e', 'w', ' ', 'c', 'r', 'e', 'a', 't', 'e', ' ', 'a', 'c', 'c', 'e', 's', 's', ' ', 'd', 'e', 'n', 'i', 'e', 'd']
}

/// Refuses a draft with no usable source.
pub open spec fn draft_source_message() -> Seq<char> {
    seq!['d', 'r', 'a', 'f', 't', ' ', 'r', 'e', 'q', 'u', 'i', 'r', 'e', 's', ' ', 'e', 'x', 'a', 'c', 't', 'l', 'y', ' ', 'o', 'n', 'e', ' ', 'o', 'f', ' ', 'w', 'i', 'k', 'i', 't', 'e', 'x', 't', ' ', 'o', 'r', ' ', 'f', 'o', 'r', 'm', '_', 'u', 'p', 'd', 'a', 't', 'e', 's', ' ', 'a', 'n', 'd', ' ', 'a', ' ', 'm', 'a', 't', 'c', 'h', 'i', 'n', 'g', ' ', 'p', 'u', 'b', 'l', 'i', 's', 'h', 'e', 'd', ' ', 'b', 'a', 's', 'e']
}

pub fn draft_source_message_chars() -> (out: Vec<char>)
    ensures
        out@ == draft_source_message(),
{
    vec!['d', 'r', 'a', 'f', 't', ' ', 'r', 'e', 'q', 'u', 'i', 'r', 'e', 's', ' ', 'e', 'x', 'a', 'c', 't', 'l', 'y', ' ', 'o', 'n', 'e', ' ', 'o', 'f', ' ', 'w', 'i', 'k', 'i', 't', 'e', 'x', 't', ' ', 'o', 'r', ' ', 'f', 'o', 'r', 'm', '_', 'u', 'p', 'd', 'a', 't', 'e', 's', ' ', 'a', 'n', 'd', ' ', 'a', ' ', 'm', 'a', 't', 'c', 'h', 'i', 'n', 'g', ' ', 'p', 'u', 'b', 'l', 'i', 's', 'h', 'e', 'd', ' ', 'b', 'a', 's', 'e']
}


#[derive(Debug, Clone, Copy, PartialEq, Eq, Structural)]
pub struct PageDraftDeleteOutput {
    pub deleted: bool,
}

#[derive(Debug)]
pub struct PageDraftService;

#[derive(Debug)]
pub struct PagePreviewOutput {
    pub html: String,
}

/// An edit must build on the page's latest revision.
pub fn check_last_revision(latest_revision_id: Option<i64>, last_revision_id: i64) -> (out: Result<(), Error>)
    ensures
        out is Ok <==> latest_revision_id == Some(last_revision_id),
        out matches Err(e) ==> error_is(e, ErrorType::NotLatestRevisionId, stale_base_message()),
{
    match latest_revision_id {
        Some(latest) => if latest == last_revision_id {
            return Ok(());
        },
        None => {},
    }
    Err(Error::new(string_from_chars(&stale_base_message_chars()), ErrorType::NotLatestRevisionId))
}

/// The base revision of a draft of an existing page: the one given, which
/// must be the page's latest.
pub fn check_base(latest_revision_id: Option<i64>, provided: Option<i64>) -> (out: Result<i64, Error>)
    ensures
        provided is None ==> (out matches Err(e) && error_is(e, ErrorType::BadRequest, base_required_message())),
        provided matches Some(p) ==> (if latest_revision_id == Some(p) {
            out == Ok::<i64, Error>(p)
        } else {
            out matches Err(e) && error_is(e, ErrorType::NotLatestRevisionId, stale_base_message())
        }),
{
    let revision_id = match provided {
        Some(p) => p,
        None => return Err(Error::new(string_from_chars(&base_required_message_chars()), ErrorType::BadRequest)),
    };
    match check_last_revision(latest_revision_id, revision_id) {
        Ok(()) => Ok(revision_id),
        Err(e) => Err(e),
    }
}

/// A preview of an edit. A field that is `None` was not given.
#[derive(Debug)]
pub struct PreviewRequest {
    pub title: Option<String>,
    pub alt_title: Option<Option<String>>,
    pub tags: Option<Vec<String>>,
    pub wikitext: Option<String>,
    pub form_updates: Option<Vec<(String, FormValue)>>,
    pub last_revision_id: Option<i64>,
}

/// Why a preview is refused, if it is: it needs exactly one source, form
/// updates need a published base, and a new page needs a title.
pub open spec fn preview_problem(r: PreviewRequest, page_exists: bool) -> Option<Seq<char>> {
    if (r.wikitext is Some) == (r.form_updates is Some) {
        Some(one_mode_message())
    } else if r.form_updates is Some && (!page_exists || r.last_revision_id is None) {
        Some(form_base_message())
    } else if !page_exists && r.title is None {
        Some(title_required_message())
    } else {
        None
    }
}

impl PreviewRequest {
    pub fn validate_modes(&self, page_exists: bool) -> (out: Result<(), Error>)
        ensures
            out is Ok <==> preview_problem(*self, page_exists) is None,
            out matches Err(e) ==> error_is(e, ErrorType::BadRequest, preview_problem(*self, page_exists).unwrap()),
    {
        if self.wikitext.is_some() == self.form_updates.is_some() {
            return Err(Error::new(string_from_chars(&one_mode_message_chars()), ErrorType::BadRequest));
        }
        if self.form_updates.is_some() && (!page_exists || self.last_revision_id.is_none()) {
            return Err(Error::new(string_from_chars(&form_base_message_chars()), ErrorType::BadRequest));
        }
        if !page_exists && self.title.is_none() {
            return Err(Error::new(string_from_chars(&title_required_message_chars()), ErrorType::BadRequest));
        }
        Ok(())
    }
}


/// Refuses an edit that gives both new wikitext and form updates.
pub open spec fn combined_modes_message() -> Seq<char> {
    seq!['w', 'i', 'k', 'i', 't', 'e', 'x', 't', ' ', 'a', 'n', 'd', ' ', 'f', 'o', 'r', 'm', '_', 'u', 'p', 'd', 'a', 't', 'e', 's', ' ', 'c', 'a', 'n', 'n', 'o', 't', ' ', 'b', 'e', ' ', 'c', 'o', 'm', 'b', 'i', 'n', 'e', 'd']
}

pub fn combined_modes_message_chars() -> (out: Vec<char>)
    ensures
        out@ == combined_modes_message(),
{
    vec!['w', 'i', 'k', 'i', 't', 'e', 'x', 't', ' ', 'a', 'n', 'd', ' ', 'f', 'o', 'r', 'm', '_', 'u', 'p', 'd', 'a', 't', 'e', 's', ' ', 'c', 'a', 'n', 'n', 'o', 't', ' ', 'b', 'e', ' ', 'c', 'o', 'm', 'b', 'i', 'n', 'e', 'd']
}

/// The body of a page edit, as far as its mode goes: new wikitext, or
/// updates to the page's form record. A field that is `None` was not given.
#[derive(Debug)]
pub struct EditPageRequest {
    pub wikitext: Option<String>,
    pub form_updates: Option<Vec<(String, FormValue)>>,
    pub do_not_notify_watchers: bool,
}

impl EditPageRequest {
    /// An edit gives new wikitext or form updates, not both, even when both
    /// are empty; giving neither edits only the page's metadata.
    pub fn validate_modes(&self) -> (out: Result<(), Error>)
        ensures
            out is Ok <==> !(self.wikitext is Some && self.form_updates is Some),
            out matches Err(e) ==> error_is(e, ErrorType::BadRequest, combined_modes_message()),
    {
        if self.form_updates.is_some() && self.wikitext.is_some() {
            return Err(Error::new(string_from_chars(&combined_modes_message_chars()), ErrorType::BadRequest));
        }
        Ok(())
    }
}

/// The body of a new page, as far as its mode goes: its wikitext, and form
/// updates when the page is created from its category's form.
#[derive(Debug)]
pub struct CreatePageRequest {
    pub wikitext: String,
    pub form_updates: Option<Vec<(String, FormValue)>>,
}

impl CreatePageRequest {
    /// Whether the new page's source is the record saved from its category
    /// form (`Ok(true)`) or its wikitext as given (`Ok(false)`). A page made
    /// from a form gives no wikitext of its own.
    pub fn from_form(&self) -> (out: Result<bool, Error>)
        ensures
            self.form_updates is None ==> out == Ok::<bool, Error>(false),
            self.form_updates is Some && self.wikitext@.len() == 0 ==> out == Ok::<bool, Error>(true),
            self.form_updates is Some && self.wikitext@.len() > 0 ==> (out matches Err(e) && error_is(e, ErrorType::BadRequest, combined_modes_message())),
    {
        if self.form_updates.is_none() {
            return Ok(false);
        }
        if str_chars(self.wikitext.as_str()).len() > 0 {
            return Err(Error::new(string_from_chars(&combined_modes_message_chars()), ErrorType::BadRequest));
        }
        Ok(true)
    }
}

// ---------------------------------------------------------------- drafts

/// `wikidot_normalize::normalize` of `text`.
pub uninterp spec fn normalized(text: Seq<char>) -> Seq<char>;

/// `wikidot_normalize::normalize`: Wikidot's page-name normal form. The
/// result is named.
#[verifier::external_body]
fn normalize_name(text: &str) -> (out: String)
    ensures
        out@ == normalized(text@),
{
    let mut name = text.to_string();
    wikidot_normalize::normalize(&mut name);
    name
}

/// The slug a draft is kept under before the page is looked up: a page
/// named by slug gives its normal form; a page named by ID, nothing yet.
pub fn draft_slug(reference: &Reference) -> (out: String)
    ensures
        match reference {
            Reference::Slug(s) => out@ == if s@.len() == 0 { s@ } else { normalized(s@) },
            Reference::Id(_) => out@.len() == 0,
        },
{
    match reference {
        Reference::Slug(s) => {
            let chars = str_chars(s.as_str());
            if chars.len() == 0 {
                string_from_chars(&chars)
            } else {
                normalize_name(s.as_str())
            }
        },
        Reference::Id(_) => String::new(),
    }
}

/// A draft begun on a page stays with that page: when the page at its slug
/// is another one, or gone, the draft is refused.
pub fn check_draft_origin(origin_page_id: Option<i64>, page_id: Option<i64>) -> (out: Result<(), Error>)
    ensures
        out is Err <==> (origin_page_id is Some && page_id != origin_page_id),
        out matches Err(e) ==> error_is(e, ErrorType::PermissionDenied, origin_moved_message()),
{
    match origin_page_id {
        Some(origin) => if page_id != Some(origin) {
            return Err(Error::new(string_from_chars(&origin_moved_message_chars()), ErrorType::PermissionDenied));
        },
        None => {},
    }
    Ok(())
}

/// The refusal of a draft (or, when `preview`, a preview) to a user who may
/// not edit the page, or not create it when it does not exist.
pub fn access_denied(preview: bool, page_exists: bool) -> (out: Error)
    ensures
        out.error_type == ErrorType::PermissionDenied,
        out.message@ == if preview {
            if page_exists { preview_denied_message() } else { preview_create_denied_message() }
        } else {
            if page_exists { draft_denied_message() } else { draft_create_denied_message() }
        },
{
    let m = if preview {
        if page_exists { preview_denied_message_chars() } else { preview_create_denied_message_chars() }
    } else {
        if page_exists { draft_denied_message_chars() } else { draft_create_denied_message_chars() }
    };
    Error::new(string_from_chars(&m), ErrorType::PermissionDenied)
}

/// Who may draft or preview a page: on an existing page, a user with View
/// and Edit on it; for a page not yet created, a signed-in user who named it
/// by slug and may create it there.
pub open spec fn may_access(page_exists: bool, can_view: bool, can_edit: bool, reference_is_slug: bool, user: Option<i64>, can_create: bool) -> bool {
    if page_exists {
        can_view && can_edit
    } else {
        reference_is_slug && user is Some && can_create
    }
}

/// A page that does not exist yet may be drafted or previewed only by a
/// signed-in user who named it by slug and may create it; without the
/// create permission access is refused whatever else holds.
pub proof fn lemma_new_page_needs_create(can_view: bool, can_edit: bool, reference_is_slug: bool, user: Option<i64>, can_create: bool)
    ensures
        may_access(false, can_view, can_edit, reference_is_slug, user, can_create) ==> reference_is_slug && user is Some && can_create,
        !can_create ==> !may_access(false, can_view, can_edit, reference_is_slug, user, can_create),
{
}

/// Whether a preview may be rendered. `can_view` and `can_edit` are the
/// user's permissions on the existing page; `can_create` whether the user
/// may create a page at the requested slug (asked only for a signed-in user
/// who named the page by slug).
pub fn preview_access(page_exists: bool, can_view: bool, can_edit: bool, reference_is_slug: bool, user: Option<i64>, can_create: bool) -> (out: Result<(), Error>)
    ensures
        out is Ok <==> may_access(page_exists, can_view, can_edit, reference_is_slug, user, can_create),
        out matches Err(e) ==> e.error_type == ErrorType::PermissionDenied
            && e.message@ == (if page_exists { preview_denied_message() } else { preview_create_denied_message() }),
        !page_exists && !can_create ==> out is Err,
        !page_exists && out is Ok ==> reference_is_slug && user is Some && can_create,
        page_exists ==> (out is Ok <==> can_view && can_edit),
{
    let allowed = if page_exists {
        can_view && can_edit
    } else {
        reference_is_slug && user.is_some() && can_create
    };
    if !allowed {
        return Err(access_denied(true, page_exists));
    }
    Ok(())
}

/// The page a draft is kept for: its site, the slug it is kept under, and
/// the page when it exists.
#[derive(Debug)]
pub struct DraftTarget {
    pub site_id: i64,
    pub slug: String,
    pub page_id: Option<i64>,
}

/// The slug a draft is kept under: an existing page's own slug, whatever
/// named it; else the normal form of the requested slug.
pub open spec fn draft_target_slug_spec(reference: Reference, page: Option<(i64, String)>) -> Seq<char> {
    match page {
        Some((_, slug)) => slug@,
        None => match reference {
            Reference::Slug(s) => if s@.len() == 0 { s@ } else { normalized(s@) },
            Reference::Id(_) => seq![],
        },
    }
}

/// The slug a draft is kept under, given the page found for the request's
/// reference (its ID and slug), if any. The stored draft is looked up there.
pub fn draft_target_slug(reference: &Reference, page: &Option<(i64, String)>) -> (out: String)
    ensures
        out@ == draft_target_slug_spec(*reference, *page),
{
    match page {
        Some((_, slug)) => string_from_chars(&str_chars(slug.as_str())),
        None => draft_slug(reference),
    }
}

/// The target of a draft request on `site_id`, given the page found for
/// `reference` (its ID and slug), the origin page of a draft already stored
/// under the target's slug, and the user's permission answers (`can_create`
/// asked of that slug). A stored draft begun on another page is refused
/// first, then a user without access.
pub fn draft_target(site_id: i64, reference: &Reference, page: Option<(i64, String)>, draft_origin: Option<i64>,
    can_view: bool, can_edit: bool, user: Option<i64>, can_create: bool) -> (out: Result<DraftTarget, Error>)
    ensures
        ({
            let page_id = match page { Some((id, _)) => Some(id), None => None };
            let exists = page is Some;
            let is_slug = reference is Slug;
            &&& (draft_origin is Some && page_id != draft_origin) ==> (out matches Err(e) && error_is(e, ErrorType::PermissionDenied, origin_moved_message()))
            &&& (!(draft_origin is Some && page_id != draft_origin) && !may_access(exists, can_view, can_edit, is_slug, user, can_create)) ==>
                (out matches Err(e) && e.error_type == ErrorType::PermissionDenied
                    && e.message@ == (if exists { draft_denied_message() } else { draft_create_denied_message() }))
            &&& out is Ok <==> !(draft_origin is Some && page_id != draft_origin) && may_access(exists, can_view, can_edit, is_slug, user, can_create)
            &&& out matches Ok(t) ==> t.site_id == site_id && t.slug@ == draft_target_slug_spec(*reference, page) && t.page_id == page_id
        }),
        page is None && !can_create ==> out is Err,
        page is None && out is Ok ==> reference is Slug && user is Some && can_create,
{
    let slug = draft_target_slug(reference, &page);
    let page_id = match &page {
        Some((id, _)) => Some(*id),
        None => None,
    };
    match check_draft_origin(draft_origin, page_id) {
        Err(e) => return Err(e),
        Ok(()) => {},
    }
    let is_slug = match reference {
        Reference::Slug(_) => true,
        Reference::Id(_) => false,
    };
    let exists = page_id.is_some();
    let allowed = if exists {
        can_view && can_edit
    } else {
        is_slug && user.is_some() && can_create
    };
    if !allowed {
        return Err(access_denied(false, exists));
    }
    Ok(DraftTarget { site_id, slug, page_id })
}

/// Where a draft's source comes from.
#[derive(Debug, Clone, Copy, PartialEq, Eq, Structural)]
pub enum DraftSource {
    /// The given wikitext.
    Wikitext,
    /// The page's latest source with the given form updates, based on this
    /// revision.
    FormUpdates(i64),
}

/// A draft of an existing page builds on its latest revision and takes
/// either wikitext or form updates; a draft of a new page takes wikitext and
/// no base.
pub fn draft_source(wikitext_given: bool, form_updates_given: bool, latest_revision_id: Option<Option<i64>>, last_revision_id: Option<i64>) -> (out: Result<DraftSource, Error>)
    ensures
        match (wikitext_given, form_updates_given, latest_revision_id) {
            (true, false, Some(latest)) => match last_revision_id {
                None => out matches Err(e) && error_is(e, ErrorType::BadRequest, base_required_message()),
                Some(p) => if latest == Some(p) { out == Ok::<DraftSource, Error>(DraftSource::Wikitext) }
                    else { out matches Err(e) && error_is(e, ErrorType::NotLatestRevisionId, stale_base_message()) },
            },
            (true, false, None) => if last_revision_id is None { out == Ok::<DraftSource, Error>(DraftSource::Wikitext) }
                else { out matches Err(e) && error_is(e, ErrorType::BadRequest, draft_source_message()) },
            (false, true, Some(latest)) => match last_revision_id {
                None => out matches Err(e) && error_is(e, ErrorType::BadRequest, base_required_message()),
                Some(p) => if latest == Some(p) { out == Ok::<DraftSource, Error>(DraftSource::FormUpdates(p)) }
                    else { out matches Err(e) && error_is(e, ErrorType::NotLatestRevisionId, stale_base_message()) },
            },
            _ => out matches Err(e) && error_is(e, ErrorType::BadRequest, draft_source_message()),
        },
{
    match (wikitext_given, form_updates_given, latest_revision_id) {
        (true, false, Some(latest)) => match check_base(latest, last_revision_id) {
            Ok(_) => Ok(DraftSource::Wikitext),
            Err(e) => Err(e),
        },
        (true, false, None) => if last_revision_id.is_none() {
            Ok(DraftSource::Wikitext)
        } else {
            Err(Error::new(string_from_chars(&draft_source_message_chars()), ErrorType::BadRequest))
        },
        (false, true, Some(latest)) => match check_base(latest, last_revision_id) {
            Ok(p) => Ok(DraftSource::FormUpdates(p)),
            Err(e) => Err(e),
        },
        _ => Err(Error::new(string_from_chars(&draft_source_message_chars()), ErrorType::BadRequest)),
    }
}

} // verus!
