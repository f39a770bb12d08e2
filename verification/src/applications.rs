//! Membership applications: an applicant's message and session are
//! checked before an application is recorded or reviewed.

use crate::error::{Error, ErrorType, error_is};
use crate::text::{chars_trim, str_chars, string_from_chars, trim};
use vstd::prelude::*;

verus! {

/// Refuses an empty or overlong application.
pub open spec fn application_length_message() -> Seq<char> {
    seq!['a', 'p', 'p', 'l', 'i', 'c', 'a', 't', 'i', 'o', 'n', ' ', 'm', 'e', 's', 's', 'a', 'g', 'e', ' ', 'm', 'u', 's', 't', ' ', 'b', 'e', ' ', '1', '–', '2', '0', '0', '0', ' ', 'c', 'h', 'a', 'r', 'a', 'c', 't', 'e', 'r', 's']
}

pub fn application_length_message_chars() -> (out: Vec<char>)
    ensures
        out@ == application_length_message(),
{
    vec!['a', 'p', 'p', 'l', 'i', 'c', 'a', 't', 'i', 'o', 'n', ' ', 'm', 'e', 's', 's', 'a', 'g', 'e', ' ', 'm', 'u', 's', 't', ' ', 'b', 'e', ' ', '1', '–', '2', '0', '0', '0', ' ', 'c', 'h', 'a', 'r', 'a', 'c', 't', 'e', 'r', 's']
}

/// Refuses a session that has not finished signing in.
pub open spec fn restricted_session_message() -> Seq<char> {
    seq!['r', 'e', 's', 't', 'r', 'i', 'c', 't', 'e', 'd', ' ', 's', 'e', 's', 's', 'i', 'o', 'n']
}

pub fn restricted_session_message_chars() -> (out: Vec<char>)
    ensures
        out@ == restricted_session_message(),
{
    vec!['r', 'e', 's', 't', 'r', 'i', 'c', 't', 'e', 'd', ' ', 's', 'e', 's', 's', 'i', 'o', 'n']
}

/// Refuses an application without a signed-in user.
pub open spec fn sign_in_message() -> Seq<char> {
    seq!['s', 'i', 'g', 'n', ' ', 'i', 'n', ' ', 't', 'o', ' ', 'a', 'p', 'p', 'l', 'y']
}

pub fn sign_in_message_chars() -> (out: Vec<char>)
    ensures
        out@ == sign_in_message(),
{
    vec!['s', 'i', 'g', 'n', ' ', 'i', 'n', ' ', 't', 'o', ' ', 'a', 'p', 'p', 'l', 'y']
}

/// Refuses application review to anyone but a site admin.
pub open spec fn reviewers_only_message() -> Seq<char> {
    seq!['o', 'n', 'l', 'y', ' ', 's', 'i', 't', 'e', ' ', 'a', 'd', 'm', 'i', 'n', 's', ' ', 'r', 'e', 'v', 'i', 'e', 'w', ' ', 'a', 'p', 'p', 'l', 'i', 'c', 'a', 't', 'i', 'o', 'n', 's']
}

pub fn reviewers_only_message_chars() -> (out: Vec<char>)
    ensures
        out@ == reviewers_only_message(),
{
    vec!['o', 'n', 'l', 'y', ' ', 's', 'i', 't', 'e', ' ', 'a', 'd', 'm', 'i', 'n', 's', ' ', 'r', 'e', 'v', 'i', 'e', 'w', ' ', 'a', 'p', 'p', 'l', 'i', 'c', 'a', 't', 'i', 'o', 'n', 's']
}

/// Reports a failed application query.
pub open spec fn application_query_message() -> Seq<char> {
    seq!['m', 'e', 'm', 'b', 'e', 'r', 's', 'h', 'i', 'p', ' ', 'a', 'p', 'p', 'l', 'i', 'c', 'a', 't', 'i', 'o', 'n', ' ', 'q', 'u', 'e', 'r', 'y', ' ', 'f', 'a', 'i', 'l', 'e', 'd']
}

pub fn application_query_message_chars() -> (out: Vec<char>)
    ensures
        out@ == application_query_message(),
{
    vec!['m', 'e', 'm', 'b', 'e', 'r', 's', 'h', 'i', 'p', ' ', 'a', 'p', 'p', 'l', 'i', 'c', 'a', 't', 'i', 'o', 'n', ' ', 'q', 'u', 'e', 'r', 'y', ' ', 'f', 'a', 'i', 'l', 'e', 'd']
}

/// Refuses an application from an account that is not a regular user.
pub open spec fn regular_only_message() -> Seq<char> {
    seq!['o', 'n', 'l', 'y', ' ', 'r', 'e', 'g', 'u', 'l', 'a', 'r', ' ', 'a', 'c', 'c', 'o', 'u', 'n', 't', 's', ' ', 'm', 'a', 'y', ' ', 'a', 'p', 'p', 'l', 'y']
}

pub fn regular_only_message_chars() -> (out: Vec<char>)
    ensures
        out@ == regular_only_message(),
{
    vec!['o', 'n', 'l', 'y', ' ', 'r', 'e', 'g', 'u', 'l', 'a', 'r', ' ', 'a', 'c', 'c', 'o', 'u', 'n', 't', 's', ' ', 'm', 'a', 'y', ' ', 'a', 'p', 'p', 'l', 'y']
}

/// Refuses an application from, or the acceptance of, a site member.
pub open spec fn site_member_message() -> Seq<char> {
    seq!['a', 'l', 'r', 'e', 'a', 'd', 'y', ' ', 'a', ' ', 's', 'i', 't', 'e', ' ', 'm', 'e', 'm', 'b', 'e', 'r']
}

pub fn site_member_message_chars() -> (out: Vec<char>)
    ensures
        out@ == site_member_message(),
{
    vec!['a', 'l', 'r', 'e', 'a', 'd', 'y', ' ', 'a', ' ', 's', 'i', 't', 'e', ' ', 'm', 'e', 'm', 'b', 'e', 'r']
}

/// Refuses a second application while one is pending.
pub open spec fn already_pending_message() -> Seq<char> {
    seq!['a', 'p', 'p', 'l', 'i', 'c', 'a', 't', 'i', 'o', 'n', ' ', 'a', 'l', 'r', 'e', 'a', 'd', 'y', ' ', 'p', 'e', 'n', 'd', 'i', 'n', 'g']
}

pub fn already_pending_message_chars() -> (out: Vec<char>)
    ensures
        out@ == already_pending_message(),
{
    vec!['a', 'p', 'p', 'l', 'i', 'c', 'a', 't', 'i', 'o', 'n', ' ', 'a', 'l', 'r', 'e', 'a', 'd', 'y', ' ', 'p', 'e', 'n', 'd', 'i', 'n', 'g']
}

/// Refuses a decision on an application that does not exist.
pub open spec fn no_pending_message() -> Seq<char> {
    seq!['n', 'o', ' ', 'p', 'e', 'n', 'd', 'i', 'n', 'g', ' ', 'a', 'p', 'p', 'l', 'i', 'c', 'a', 't', 'i', 'o', 'n']
}

pub fn no_pending_message_chars() -> (out: Vec<char>)
    ensures
        out@ == no_pending_message(),
{
    vec!['n', 'o', ' ', 'p', 'e', 'n', 'd', 'i', 'n', 'g', ' ', 'a', 'p', 'p', 'l', 'i', 'c', 'a', 't', 'i', 'o', 'n']
}

// ---------------------------------------------------------------- applications

pub const MAX_MESSAGE_CHARS: usize = 2000;

/// An application's message: trimmed, 1 to 2000 characters.
pub fn application_message(message: &str) -> (out: Result<String, Error>)
    ensures
        out is Ok <==> 0 < trim(message@).len() <= MAX_MESSAGE_CHARS,
        out matches Ok(m) ==> m@ == trim(message@),
        out matches Err(e) ==> error_is(e, ErrorType::BadRequest, application_length_message()),
{
    let m = chars_trim(&str_chars(message));
    if m.len() == 0 || m.len() > MAX_MESSAGE_CHARS {
        return Err(Error::new(string_from_chars(&application_length_message_chars()), ErrorType::BadRequest));
    }
    Ok(string_from_chars(&m))
}

/// The site and user of an application request: a restricted session is
/// refused first, then a request without a user.
pub fn require_user(site_id: i64, user_id: Option<i64>, restricted: bool) -> (out: Result<(i64, i64), Error>)
    ensures
        restricted ==> (out matches Err(e) && error_is(e, ErrorType::PermissionDenied, restricted_session_message())),
        !restricted && user_id is None ==> (out matches Err(e) && error_is(e, ErrorType::PermissionDenied, sign_in_message())),
        !restricted && user_id is Some ==> out == Ok::<(i64, i64), Error>((site_id, user_id.unwrap())),
{
    if restricted {
        return Err(Error::new(string_from_chars(&restricted_session_message_chars()), ErrorType::PermissionDenied));
    }
    match user_id {
        None => Err(Error::new(string_from_chars(&sign_in_message_chars()), ErrorType::PermissionDenied)),
        Some(u) => Ok((site_id, u)),
    }
}

/// What a submission must still pass once its applicant is known: only a
/// regular account may apply, a site member may not, and an applicant has
/// one pending application at most. The checks run in that order.
pub fn check_submission(regular_account: bool, is_member: bool, has_pending: bool) -> (out: Result<(), Error>)
    ensures
        out is Ok <==> regular_account && !is_member && !has_pending,
        !regular_account ==> (out matches Err(e) && error_is(e, ErrorType::PermissionDenied, regular_only_message())),
        regular_account && is_member ==> (out matches Err(e) && error_is(e, ErrorType::SiteMemberExists, site_member_message())),
        regular_account && !is_member && has_pending ==> (out matches Err(e) && error_is(e, ErrorType::BadRequest, already_pending_message())),
{
    if !regular_account {
        return Err(Error::new(string_from_chars(&regular_only_message_chars()), ErrorType::PermissionDenied));
    }
    if is_member {
        return Err(Error::new(string_from_chars(&site_member_message_chars()), ErrorType::SiteMemberExists));
    }
    if has_pending {
        return Err(Error::new(string_from_chars(&already_pending_message_chars()), ErrorType::BadRequest));
    }
    Ok(())
}

/// What a site admin's decision on an application does: on `Ok(true)` the
/// applicant joins the site, with its member role, and then the application
/// is removed; on `Ok(false)` the application is only removed. Without a
/// pending application there is nothing to decide, and an applicant who
/// became a member meanwhile cannot be accepted.
pub fn decide_outcome(has_pending: bool, accept: bool, is_member: bool) -> (out: Result<bool, Error>)
    ensures
        !has_pending ==> (out matches Err(e) && error_is(e, ErrorType::BadRequest, no_pending_message())),
        has_pending && accept && is_member ==> (out matches Err(e) && error_is(e, ErrorType::SiteMemberExists, site_member_message())),
        has_pending && !(accept && is_member) ==> out == Ok::<bool, Error>(accept),
{
    if !has_pending {
        return Err(Error::new(string_from_chars(&no_pending_message_chars()), ErrorType::BadRequest));
    }
    if accept && is_member {
        return Err(Error::new(string_from_chars(&site_member_message_chars()), ErrorType::SiteMemberExists));
    }
    Ok(accept)
}

/// The refusal of application review to anyone but a site admin.
pub fn denied_reviewer() -> (out: Error)
    ensures
        error_is(out, ErrorType::PermissionDenied, reviewers_only_message()),
{
    Error::new(string_from_chars(&reviewers_only_message_chars()), ErrorType::PermissionDenied)
}

pub fn query_error() -> (out: Error)
    ensures
        error_is(out, ErrorType::DatabaseQuery, application_query_message()),
{
    Error::new(string_from_chars(&application_query_message_chars()), ErrorType::DatabaseQuery)
}

/// Membership applications act for the request's session user.
#[derive(Debug)]
pub struct MemberApplicationService;

} // verus!
