//! Delivering watcher notifications: which recipients get email, what is
//! recorded of each delivery, the email itself, and the Activity pages a
//! recipient browses. An ambiguous email attempt is never replayed.

use crate::email::OutgoingEmail;
use crate::error::{Error, ErrorType, error_is};
use crate::password::sha256_of_utf8;
use crate::watching::{rendered_diff_spec, WatchScope, WatchSubscription};
use crate::text::{chars_eq, push_all, push_decimal_i64, signed_decimal, str_chars, string_from_chars};
use vstd::prelude::*;

verus! {

/// A recipient whose email is still owed.
pub open spec fn pending_status() -> Seq<char> {
    seq!['p', 'e', 'n', 'd', 'i', 'n', 'g']
}

pub fn pending_status_chars() -> (out: Vec<char>)
    ensures
        out@ == pending_status(),
{
    vec!['p', 'e', 'n', 'd', 'i', 'n', 'g']
}

/// A recipient who gets no email.
pub open spec fn disabled_status() -> Seq<char> {
    seq!['d', 'i', 's', 'a', 'b', 'l', 'e', 'd']
}

pub fn disabled_status_chars() -> (out: Vec<char>)
    ensures
        out@ == disabled_status(),
{
    vec!['d', 'i', 's', 'a', 'b', 'l', 'e', 'd']
}

/// A delivery that failed.
pub open spec fn failed_status() -> Seq<char> {
    seq!['f', 'a', 'i', 'l', 'e', 'd']
}

pub fn failed_status_chars() -> (out: Vec<char>)
    ensures
        out@ == failed_status(),
{
    vec!['f', 'a', 'i', 'l', 'e', 'd']
}

/// An email whose sending began.
pub open spec fn attempted_status() -> Seq<char> {
    seq!['a', 't', 't', 'e', 'm', 'p', 't', 'e', 'd']
}

pub fn attempted_status_chars() -> (out: Vec<char>)
    ensures
        out@ == attempted_status(),
{
    vec!['a', 't', 't', 'e', 'm', 'p', 't', 'e', 'd']
}

/// An email Mailgun accepted.
pub open spec fn sent_status() -> Seq<char> {
    seq!['s', 'e', 'n', 't']
}

pub fn sent_status_chars() -> (out: Vec<char>)
    ensures
        out@ == sent_status(),
{
    vec!['s', 'e', 'n', 't']
}

/// Why a change could not be shown.
pub open spec fn visibility_failed_message() -> Seq<char> {
    seq!['r', 'e', 'v', 'i', 's', 'i', 'o', 'n', ' ', 'v', 'i', 's', 'i', 'b', 'i', 'l', 'i', 't', 'y', '/', 'r', 'e', 'n', 'd', 'e', 'r', 'i', 'n', 'g', ' ', 'f', 'a', 'i', 'l', 'e', 'd']
}

pub fn visibility_failed_message_chars() -> (out: Vec<char>)
    ensures
        out@ == visibility_failed_message(),
{
    vec!['r', 'e', 'v', 'i', 's', 'i', 'o', 'n', ' ', 'v', 'i', 's', 'i', 'b', 'i', 'l', 'i', 't', 'y', '/', 'r', 'e', 'n', 'd', 'e', 'r', 'i', 'n', 'g', ' ', 'f', 'a', 'i', 'l', 'e', 'd']
}

/// Why no email could be sent.
pub open spec fn sender_missing_message() -> Seq<char> {
    seq!['e', 'm', 'a', 'i', 'l', ' ', 's', 'e', 'n', 'd', 'e', 'r', ' ', 'i', 's', ' ', 'n', 'o', 't', ' ', 'c', 'o', 'n', 'f', 'i', 'g', 'u', 'r', 'e', 'd']
}

pub fn sender_missing_message_chars() -> (out: Vec<char>)
    ensures
        out@ == sender_missing_message(),
{
    vec!['e', 'm', 'a', 'i', 'l', ' ', 's', 'e', 'n', 'd', 'e', 'r', ' ', 'i', 's', ' ', 'n', 'o', 't', ' ', 'c', 'o', 'n', 'f', 'i', 'g', 'u', 'r', 'e', 'd']
}

/// Why an attempted email may not have arrived.
pub open spec fn attempt_failed_message() -> Seq<char> {
    seq!['e', 'm', 'a', 'i', 'l', ' ', 'a', 't', 't', 'e', 'm', 'p', 't', ' ', 'f', 'a', 'i', 'l', 'e', 'd', ';', ' ', 'd', 'e', 'l', 'i', 'v', 'e', 'r', 'y', ' ', 'm', 'a', 'y', ' ', 'b', 'e', ' ', 'u', 'n', 'c', 'e', 'r', 't', 'a', 'i', 'n']
}

pub fn attempt_failed_message_chars() -> (out: Vec<char>)
    ensures
        out@ == attempt_failed_message(),
{
    vec!['e', 'm', 'a', 'i', 'l', ' ', 'a', 't', 't', 'e', 'm', 'p', 't', ' ', 'f', 'a', 'i', 'l', 'e', 'd', ';', ' ', 'd', 'e', 'l', 'i', 'v', 'e', 'r', 'y', ' ', 'm', 'a', 'y', ' ', 'b', 'e', ' ', 'u', 'n', 'c', 'e', 'r', 't', 'a', 'i', 'n']
}

/// How an edit is described.
pub open spec fn edited_word() -> Seq<char> {
    seq!['e', 'd', 'i', 't', 'e', 'd']
}

pub fn edited_word_chars() -> (out: Vec<char>)
    ensures
        out@ == edited_word(),
{
    vec!['e', 'd', 'i', 't', 'e', 'd']
}

/// How a creation is described.
pub open spec fn created_word() -> Seq<char> {
    seq!['c', 'r', 'e', 'a', 't', 'e', 'd']
}

pub fn created_word_chars() -> (out: Vec<char>)
    ensures
        out@ == created_word(),
{
    vec!['c', 'r', 'e', 'a', 't', 'e', 'd']
}

/// Between a title and what happened to it.
pub open spec fn was_word() -> Seq<char> {
    seq![' ', 'w', 'a', 's', ' ']
}

pub fn was_word_chars() -> (out: Vec<char>)
    ensures
        out@ == was_word(),
{
    vec![' ', 'w', 'a', 's', ' ']
}

/// Between the author and when they changed the page.
pub open spec fn this_page_at() -> Seq<char> {
    seq![' ', 't', 'h', 'i', 's', ' ', 'p', 'a', 'g', 'e', ' ', 'a', 't', ' ']
}

pub fn this_page_at_chars() -> (out: Vec<char>)
    ensures
        out@ == this_page_at(),
{
    vec![' ', 't', 'h', 'i', 's', ' ', 'p', 'a', 'g', 'e', ' ', 'a', 't', ' ']
}

/// Ends the line that says who changed the page.
pub open spec fn period_break() -> Seq<char> {
    seq!['.', '\n', '\n']
}

pub fn period_break_chars() -> (out: Vec<char>)
    ensures
        out@ == period_break(),
{
    vec!['.', '\n', '\n']
}

/// Before the link to the whole change.
pub open spec fn complete_change() -> Seq<char> {
    seq!['\n', '\n', 'C', 'o', 'm', 'p', 'l', 'e', 't', 'e', ' ', 'c', 'h', 'a', 'n', 'g', 'e', ':', ' ']
}

pub fn complete_change_chars() -> (out: Vec<char>)
    ensures
        out@ == complete_change(),
{
    vec!['\n', '\n', 'C', 'o', 'm', 'p', 'l', 'e', 't', 'e', ' ', 'c', 'h', 'a', 'n', 'g', 'e', ':', ' ']
}

/// Before the unsubscribe link.
pub open spec fn stop_email() -> Seq<char> {
    seq!['\n', '\n', 'S', 't', 'o', 'p', ' ', 'w', 'a', 't', 'c', 'h', 'e', 'r', ' ', 'e', 'm', 'a', 'i', 'l', ':', ' ']
}

pub fn stop_email_chars() -> (out: Vec<char>)
    ensures
        out@ == stop_email(),
{
    vec!['\n', '\n', 'S', 't', 'o', 'p', ' ', 'w', 'a', 't', 'c', 'h', 'e', 'r', ' ', 'e', 'm', 'a', 'i', 'l', ':', ' ']
}

/// Ends a watcher email.
pub open spec fn closing_note() -> Seq<char> {
    seq!['\n', 'A', 'c', 't', 'i', 'v', 'i', 't', 'y', ' ', 'a', 'n', 'd', ' ', 'w', 'a', 't', 'c', 'h', 'e', 's', ' ', 'a', 'r', 'e', ' ', 'n', 'o', 't', ' ', 'r', 'e', 'm', 'o', 'v', 'e', 'd', ' ', 'b', 'y', ' ', 'u', 'n', 's', 'u', 'b', 's', 'c', 'r', 'i', 'b', 'i', 'n', 'g', '.']
}

pub fn closing_note_chars() -> (out: Vec<char>)
    ensures
        out@ == closing_note(),
{
    vec!['\n', 'A', 'c', 't', 'i', 'v', 'i', 't', 'y', ' ', 'a', 'n', 'd', ' ', 'w', 'a', 't', 'c', 'h', 'e', 's', ' ', 'a', 'r', 'e', ' ', 'n', 'o', 't', ' ', 'r', 'e', 'm', 'o', 'v', 'e', 'd', ' ', 'b', 'y', ' ', 'u', 'n', 's', 'u', 'b', 's', 'c', 'r', 'i', 'b', 'i', 'n', 'g', '.']
}

/// Starts a link.
pub open spec fn https_scheme() -> Seq<char> {
    seq!['h', 't', 't', 'p', 's', ':', '/', '/']
}

pub fn https_scheme_chars() -> (out: Vec<char>)
    ensures
        out@ == https_scheme(),
{
    vec!['h', 't', 't', 'p', 's', ':', '/', '/']
}

/// The page that shows one change.
pub open spec fn activity_path() -> Seq<char> {
    seq!['/', '-', '/', 'a', 'c', 't', 'i', 'v', 'i', 't', 'y', '?', 'e', 'v', 'e', 'n', 't', '=']
}

pub fn activity_path_chars() -> (out: Vec<char>)
    ensures
        out@ == activity_path(),
{
    vec!['/', '-', '/', 'a', 'c', 't', 'i', 'v', 'i', 't', 'y', '?', 'e', 'v', 'e', 'n', 't', '=']
}

/// The page that stops watcher email.
pub open spec fn unsubscribe_path() -> Seq<char> {
    seq!['/', '-', '/', 'w', 'a', 't', 'c', 'h', 'i', 'n', 'g', '-', 'u', 'n', 's', 'u', 'b', 's', 'c', 'r', 'i', 'b', 'e', '?', 't', 'o', 'k', 'e', 'n', '=']
}

pub fn unsubscribe_path_chars() -> (out: Vec<char>)
    ensures
        out@ == unsubscribe_path(),
{
    vec!['/', '-', '/', 'w', 'a', 't', 'c', 'h', 'i', 'n', 'g', '-', 'u', 'n', 's', 'u', 'b', 's', 'c', 'r', 'i', 'b', 'e', '?', 't', 'o', 'k', 'e', 'n', '=']
}

/// An Activity entry for an edit.
pub open spec fn edit_event() -> Seq<char> {
    seq!['e', 'd', 'i', 't']
}

pub fn edit_event_chars() -> (out: Vec<char>)
    ensures
        out@ == edit_event(),
{
    vec!['e', 'd', 'i', 't']
}

/// An Activity entry for a creation.
pub open spec fn create_event() -> Seq<char> {
    seq!['c', 'r', 'e', 'a', 't', 'e']
}

pub fn create_event_chars() -> (out: Vec<char>)
    ensures
        out@ == create_event(),
{
    vec!['c', 'r', 'e', 'a', 't', 'e']
}

/// Refuses an Activity page out of bounds.
pub open spec fn activity_cursor_message() -> Seq<char> {
    seq!['i', 'n', 'v', 'a', 'l', 'i', 'd', ' ', 'A', 'c', 't', 'i', 'v', 'i', 't', 'y', ' ', 'c', 'u', 'r', 's', 'o', 'r', ' ', 'o', 'r', ' ', 'l', 'i', 'm', 'i', 't']
}

pub fn activity_cursor_message_chars() -> (out: Vec<char>)
    ensures
        out@ == activity_cursor_message(),
{
    vec!['i', 'n', 'v', 'a', 'l', 'i', 'd', ' ', 'A', 'c', 't', 'i', 'v', 'i', 't', 'y', ' ', 'c', 'u', 'r', 's', 'o', 'r', ' ', 'o', 'r', ' ', 'l', 'i', 'm', 'i', 't']
}


/// Refuses a change whose two revisions are of different pages.
pub open spec fn different_pages_message() -> Seq<char> {
    seq!['w', 'a', 't', 'c', 'h', ' ', 'r', 'e', 'v', 'i', 's', 'i', 'o', 'n', 's', ' ', 'b', 'e', 'l', 'o', 'n', 'g', ' ', 't', 'o', ' ', 'd', 'i', 'f', 'f', 'e', 'r', 'e', 'n', 't', ' ', 'p', 'a', 'g', 'e', 's']
}

pub fn different_pages_message_chars() -> (out: Vec<char>)
    ensures
        out@ == different_pages_message(),
{
    vec!['w', 'a', 't', 'c', 'h', ' ', 'r', 'e', 'v', 'i', 's', 'i', 'o', 'n', 's', ' ', 'b', 'e', 'l', 'o', 'n', 'g', ' ', 't', 'o', ' ', 'd', 'i', 'f', 'f', 'e', 'r', 'e', 'n', 't', ' ', 'p', 'a', 'g', 'e', 's']
}

/// A recorded change is between two revisions of one page: the previous
/// revision must be of the changed page, on its site.
pub fn check_previous_revision(previous_page_id: i64, previous_site_id: i64, page_id: i64, site_id: i64) -> (out: Result<(), Error>)
    ensures
        out is Ok <==> previous_page_id == page_id && previous_site_id == site_id,
        out matches Err(e) ==> error_is(e, ErrorType::Page, different_pages_message()),
{
    if previous_page_id != page_id || previous_site_id != site_id {
        return Err(Error::new(string_from_chars(&different_pages_message_chars()), ErrorType::Page));
    }
    Ok(())
}

/// Whether a subscription on a site covers a change to page `page_id` in
/// category `category_id` there: a site subscription covers every page.
pub open spec fn covers_spec(subscription: WatchSubscription, category_id: i64, page_id: i64) -> bool {
    match subscription.scope {
        WatchScope::Site => true,
        WatchScope::Category => subscription.target_id == category_id,
        WatchScope::Page => subscription.target_id == page_id,
    }
}

pub fn covers(subscription: WatchSubscription, category_id: i64, page_id: i64) -> (out: bool)
    ensures
        out == covers_spec(subscription, category_id, page_id),
{
    match subscription.scope {
        WatchScope::Site => true,
        WatchScope::Category => subscription.target_id == category_id,
        WatchScope::Page => subscription.target_id == page_id,
    }
}

/// Whether `user` is owed a notification of a change by `actor_id`: one of
/// their subscriptions on the site covers it, and they did not make it.
pub open spec fn is_recipient(subscriptions: Seq<(i64, WatchSubscription)>, actor_id: i64, category_id: i64, page_id: i64, user: i64) -> bool {
    user != actor_id && exists|i: int| 0 <= i < subscriptions.len() && (#[trigger] subscriptions[i]).0 == user
        && covers_spec(subscriptions[i].1, category_id, page_id)
}

/// The users notified of a change, from the site's subscriptions as (user,
/// subscription) pairs: each watcher whose subscription covers the change,
/// once however many do, and never the user who made it.
pub fn change_recipients(subscriptions: &[(i64, WatchSubscription)], actor_id: i64, category_id: i64, page_id: i64) -> (out: Vec<i64>)
    ensures
        forall|u: i64| out@.contains(u) <==> is_recipient(subscriptions@, actor_id, category_id, page_id, u),
        out@.no_duplicates(),
{
    let mut out: Vec<i64> = Vec::new();
    let mut i: usize = 0;
    while i < subscriptions.len()
        invariant
            i <= subscriptions@.len(),
            out@.no_duplicates(),
            forall|u: i64| out@.contains(u) <==> is_recipient(subscriptions@.subrange(0, i as int), actor_id, category_id, page_id, u),
        decreases subscriptions@.len() - i,
    {
        let (user, subscription) = subscriptions[i];
        let ghost prefix = subscriptions@.subrange(0, i as int);
        let ghost next = subscriptions@.subrange(0, i + 1);
        let ghost before = out@;
        if user != actor_id && covers(subscription, category_id, page_id) {
            let mut known = false;
            let mut k: usize = 0;
            while k < out.len()
                invariant
                    k <= out@.len(),
                    out@ == before,
                    known == (exists|j: int| 0 <= j < k && out@[j] == user),
                decreases out@.len() - k,
            {
                if out[k] == user {
                    known = true;
                }
                k = k + 1;
            }
            if !known {
                proof {
                    assert forall|j: int| 0 <= j < before.len() implies before[j] != user by {
                        assert(!(0 <= j < out@.len() && out@[j] == user));
                    }
                }
                out.push(user);
                assert(out@ == before.push(user));
                assert forall|u: i64| out@.contains(u) <==> (before.contains(u) || u == user) by {
                    if out@.contains(u) {
                        let j = choose|j: int| 0 <= j < out@.len() && out@[j] == u;
                        if j < before.len() {
                            assert(before[j] == u);
                        }
                    }
                    if before.contains(u) {
                        let j = choose|j: int| 0 <= j < before.len() && before[j] == u;
                        assert(out@[j] == u);
                    }
                    if u == user {
                        assert(out@[before.len() as int] == user);
                    }
                }
            } else {
                let ghost j = choose|j: int| 0 <= j < k && out@[j] == user;
                assert(before[j] == user);
                assert(before.contains(user));
            }
        }
        assert(forall|u: i64| out@.contains(u) <==> (before.contains(u) || (u == user && user != actor_id && covers_spec(subscription, category_id, page_id))));
        proof {
            assert(next == prefix.push(subscriptions@[i as int]));
            assert forall|u: i64| out@.contains(u) <==> is_recipient(next, actor_id, category_id, page_id, u) by {
                assert(before.contains(u) <==> is_recipient(prefix, actor_id, category_id, page_id, u));
                if is_recipient(next, actor_id, category_id, page_id, u) {
                    let j = choose|j: int| 0 <= j < next.len() && (#[trigger] next[j]).0 == u
                        && covers_spec(next[j].1, category_id, page_id);
                    if j < i {
                        assert(prefix[j] == next[j]);
                        assert(is_recipient(prefix, actor_id, category_id, page_id, u));
                    } else {
                        assert(next[j] == (user, subscription));
                    }
                }
                if is_recipient(prefix, actor_id, category_id, page_id, u) {
                    let j = choose|j: int| 0 <= j < prefix.len() && (#[trigger] prefix[j]).0 == u
                        && covers_spec(prefix[j].1, category_id, page_id);
                    assert(next[j] == prefix[j]);
                }
                if u == user && user != actor_id && covers_spec(subscription, category_id, page_id) {
                    assert(next[i as int] == subscriptions@[i as int]);
                }
            }
        }
        i = i + 1;
    }
    proof {
        assert(subscriptions@.subrange(0, subscriptions@.len() as int) == subscriptions@);
    }
    out
}

/// The email status a notification starts with: owed when the watcher
/// turned watcher email on, else disabled (also without preferences).
pub fn initial_email_status(email_enabled: Option<bool>) -> (out: String)
    ensures
        out@ == if email_enabled == Some(true) { pending_status() } else { disabled_status() },
{
    match email_enabled {
        Some(true) => string_from_chars(&pending_status_chars()),
        _ => string_from_chars(&disabled_status_chars()),
    }
}

/// Whether a claimed recipient gets an email: only while its email is
/// pending, with email enabled in its preferences (off when it has none),
/// and only to an account that is not deleted and has a verified address.
pub open spec fn eligible_spec(email_status: Seq<char>, email_enabled: Option<bool>, account: Option<(bool, bool, Seq<char>)>) -> Option<Seq<char>> {
    if email_status != pending_status() {
        None
    } else if email_enabled != Some(true) {
        None
    } else {
        match account {
            Some((deleted, verified, email)) => if !deleted && verified { Some(email) } else { None },
            None => None,
        }
    }
}

/// The address a claimed recipient is emailed at, if any. `account` is
/// whether the account is deleted, whether its address is verified, and the
/// address.
pub fn eligible_email_recipient(email_status: &str, email_enabled: Option<bool>, account: Option<(bool, bool, String)>) -> (out: Option<String>)
    ensures
        match out {
            Some(e) => eligible_spec(email_status@, email_enabled, match account { Some((d, v, a)) => Some((d, v, a@)), None => None }) == Some(e@),
            None => eligible_spec(email_status@, email_enabled, match account { Some((d, v, a)) => Some((d, v, a@)), None => None }) is None,
        },
{
    if !chars_eq(&str_chars(email_status), &pending_status_chars()) {
        return None;
    }
    if email_enabled != Some(true) {
        return None;
    }
    match account {
        Some((deleted, verified, email)) => if !deleted && verified { Some(email) } else { None },
        None => None,
    }
}

/// Whether the recipient may see the change now.
#[derive(Debug, Clone, Copy, PartialEq, Eq, Structural)]
pub enum ChangeVisibility {
    Visible,
    Hidden,
    Failed,
}

/// What a claim records of a delivery: whether Activity shows it, the email
/// status, the failure if any, and whether an email is to be sent.
#[derive(Debug)]
pub struct Claim {
    pub activity_ready: bool,
    pub email_status: String,
    pub failure: Option<String>,
    pub send: bool,
}

pub open spec fn claim_is(c: Claim, ready: bool, status: Seq<char>, failure: Option<Seq<char>>, send: bool) -> bool {
    &&& c.activity_ready == ready
    &&& c.email_status@ == status
    &&& match c.failure { Some(f) => failure == Some(f@), None => failure is None }
    &&& c.send == send
}

fn claim(ready: bool, status: Vec<char>, failure: Option<Vec<char>>, send: bool) -> (out: Claim)
    ensures
        claim_is(out, ready, status@, match failure { Some(f) => Some(f@), None => None }, send),
{
    Claim {
        activity_ready: ready,
        email_status: string_from_chars(&status),
        failure: match failure {
            Some(f) => Some(string_from_chars(&f)),
            None => None,
        },
        send,
    }
}

/// The claim of a notification: a change the recipient cannot see is not
/// shown and not emailed; a visible one is shown, and emailed when there is
/// an eligible address and a configured sender.
pub fn delivery_claim(visibility: ChangeVisibility, has_recipient: bool, sender_configured: bool) -> (out: Claim)
    ensures
        visibility == ChangeVisibility::Hidden ==> claim_is(out, false, disabled_status(), None, false),
        visibility == ChangeVisibility::Failed ==> claim_is(out, false, failed_status(), Some(visibility_failed_message()), false),
        visibility == ChangeVisibility::Visible && !has_recipient ==> claim_is(out, true, disabled_status(), None, false),
        visibility == ChangeVisibility::Visible && has_recipient && !sender_configured
            ==> claim_is(out, true, failed_status(), Some(sender_missing_message()), false),
        visibility == ChangeVisibility::Visible && has_recipient && sender_configured
            ==> claim_is(out, true, attempted_status(), None, true),
        out.send ==> out.email_status@ == attempted_status(),
{
    match visibility {
        ChangeVisibility::Hidden => claim(false, disabled_status_chars(), None, false),
        ChangeVisibility::Failed => claim(false, failed_status_chars(), Some(visibility_failed_message_chars()), false),
        ChangeVisibility::Visible => if !has_recipient {
            claim(true, disabled_status_chars(), None, false)
        } else if !sender_configured {
            claim(true, failed_status_chars(), Some(sender_missing_message_chars()), false)
        } else {
            claim(true, attempted_status_chars(), None, true)
        },
    }
}

/// What is recorded after one email attempt: sent, or failed and possibly
/// delivered. Either way the attempt is not made again.
pub fn attempt_result(sent: bool) -> (out: (String, Option<String>))
    ensures
        sent ==> out.0@ == sent_status() && out.1 is None,
        !sent ==> out.0@ == failed_status() && (out.1 matches Some(m) && m@ == attempt_failed_message()),
{
    if sent {
        (string_from_chars(&sent_status_chars()), None)
    } else {
        (string_from_chars(&failed_status_chars()), Some(string_from_chars(&attempt_failed_message_chars())))
    }
}

// ---------------------------------------------------------------- the email

/// How `time` writes the instant `nanos` (UTC), as `OffsetDateTime`'s
/// `Display` does.
pub uninterp spec fn datetime_text(nanos: int) -> Seq<char>;

pub const MIN_DATED_NANOS: i128 = -377_705_116_800_000_000_000;
pub const MAX_DATED_NANOS: i128 = 253_402_300_799_999_999_999;

/// An instant in nanoseconds as `OffsetDateTime`'s `Display` writes it, in
/// UTC, through `OffsetDateTime::from_unix_timestamp_nanos`. The text is
/// named; the range is where `time` has a date.
#[verifier::external_body]
fn datetime(nanos: i128) -> (out: String)
    requires
        MIN_DATED_NANOS <= nanos <= MAX_DATED_NANOS,
    ensures
        out@ == datetime_text(nanos as int),
{
    match time::OffsetDateTime::from_unix_timestamp_nanos(nanos) {
        Ok(at) => at.to_string(),
        Err(_) => String::new(),
    }
}

/// A title on one line: line breaks become spaces.
pub open spec fn one_line(s: Seq<char>) -> Seq<char> {
    s.map_values(|c: char| if c == '\r' || c == '\n' { ' ' } else { c })
}

pub open spec fn event_word(edited: bool) -> Seq<char> {
    if edited { edited_word() } else { created_word() }
}

pub open spec fn change_url(domain: Seq<char>, event_id: i64) -> Seq<char> {
    https_scheme() + domain + activity_path() + signed_decimal(event_id as int)
}

pub open spec fn unsubscribe_url(domain: Seq<char>, token: Seq<char>) -> Seq<char> {
    https_scheme() + domain + unsubscribe_path() + token
}

pub open spec fn watch_email_text(title: Seq<char>, actor: Seq<char>, edited: bool, created: Seq<char>, diff: Seq<char>, change: Seq<char>, unsubscribe: Seq<char>) -> Seq<char> {
    one_line(title) + seq!['\n'] + actor + seq![' '] + event_word(edited) + this_page_at() + created + period_break()
        + diff + complete_change() + change + stop_email() + unsubscribe + closing_note()
}

/// What a watcher email is about.
#[derive(Debug)]
pub struct WatchedChange {
    pub event_id: i64,
    /// When the change was made, in nanoseconds since the Unix epoch.
    pub created_at: i128,
    /// Whether the change edited a page rather than creating it.
    pub edited: bool,
    pub title: String,
    pub before: Option<String>,
    pub after: String,
}

fn one_line_chars(s: &str) -> (out: Vec<char>)
    ensures
        out@ == one_line(s@),
{
    let c = str_chars(s);
    let mut out: Vec<char> = Vec::new();
    let mut i: usize = 0;
    while i < c.len()
        invariant
            i <= c@.len(),
            out@ == one_line(c@.take(i as int)),
        decreases c@.len() - i,
    {
        out.push(if c[i] == '\r' || c[i] == '\n' { ' ' } else { c[i] });
        assert(out@ =~= one_line(c@.take(i as int + 1)));
        i = i + 1;
    }
    assert(c@.take(c@.len() as int) =~= c@);
    out
}

fn email_links(domain: &[char], event_id: i64, token: &str) -> (out: Vec<char>)
    ensures
        out@ == complete_change() + change_url(domain@, event_id) + stop_email() + unsubscribe_url(domain@, token@) + closing_note(),
{
    let mut change = https_scheme_chars();
    push_all(&mut change, domain);
    push_all(&mut change, &activity_path_chars());
    push_decimal_i64(&mut change, event_id);
    let mut stop = https_scheme_chars();
    push_all(&mut stop, domain);
    push_all(&mut stop, &unsubscribe_path_chars());
    push_all(&mut stop, &str_chars(token));
    let mut out = complete_change_chars();
    push_all(&mut out, &change);
    push_all(&mut out, &stop_email_chars());
    push_all(&mut out, &stop);
    push_all(&mut out, &closing_note_chars());
    out
}

fn email_head(title: &str, actor: &str, edited: bool, created: &str) -> (out: Vec<char>)
    ensures
        out@ == one_line(title@) + seq!['\n'] + actor@ + seq![' '] + event_word(edited) + this_page_at() + created@ + period_break(),
{
    let mut out = one_line_chars(title);
    out.push('\n');
    push_all(&mut out, &str_chars(actor));
    out.push(' ');
    if edited {
        push_all(&mut out, &edited_word_chars());
    } else {
        push_all(&mut out, &created_word_chars());
    }
    push_all(&mut out, &this_page_at_chars());
    push_all(&mut out, &str_chars(created));
    push_all(&mut out, &period_break_chars());
    out
}

/// The email that tells `recipient` of a change, with its summary, a link to
/// the whole change and a link that stops watcher email.
pub fn compose_email(recipient: String, domain: &str, actor: &str, change: &WatchedChange, token: &str) -> (out: OutgoingEmail)
    requires
        MIN_DATED_NANOS <= change.created_at <= MAX_DATED_NANOS,
    ensures
        out.to == recipient,
        out.subject@ == one_line(change.title@) + was_word() + event_word(change.edited),
        out.text@ == watch_email_text(change.title@, actor@, change.edited, datetime_text(change.created_at as int),
            rendered_diff_spec(match change.before { Some(b) => Some(b@), None => None }, change.after@),
            change_url(domain@, change.event_id), unsubscribe_url(domain@, token@)),
        out.html is None,
{
    let mut subject = one_line_chars(change.title.as_str());
    push_all(&mut subject, &was_word_chars());
    if change.edited {
        push_all(&mut subject, &edited_word_chars());
    } else {
        push_all(&mut subject, &created_word_chars());
    }
    let diff = match &change.before {
        Some(b) => crate::watching::rendered_diff(Some(b.as_str()), change.after.as_str()),
        None => crate::watching::rendered_diff(None, change.after.as_str()),
    };
    let created = datetime(change.created_at);
    let head = email_head(change.title.as_str(), actor, change.edited, created.as_str());
    let links = email_links(&str_chars(domain), change.event_id, token);
    let mut text = head;
    push_all(&mut text, &str_chars(diff.as_str()));
    push_all(&mut text, &links);
    OutgoingEmail { to: recipient, subject: string_from_chars(&subject), text: string_from_chars(&text), html: None }
}

// ---------------------------------------------------------------- unsubscribe tokens

/// Whether `uuid::Uuid::parse_str` accepts `text`.
pub uninterp spec fn parses_as_uuid(text: Seq<char>) -> bool;

/// A new random version 4 UUID, hyphenated (`Uuid::new_v4().to_string()`):
/// 36 characters that `Uuid::parse_str` accepts, as it accepts every
/// hyphenated UUID; which UUID is left open.
#[verifier::external_body]
fn new_uuid() -> (out: String)
    ensures
        out@.len() == 36,
        parses_as_uuid(out@),
{
    uuid::Uuid::new_v4().to_string()
}

/// Whether `uuid::Uuid::parse_str` accepts `text`; the answer is named.
#[verifier::external_body]
fn is_uuid(text: &str) -> (out: bool)
    ensures
        out == parses_as_uuid(text@),
{
    uuid::Uuid::parse_str(text).is_ok()
}

/// A new unsubscribe token and the SHA-256 that is stored of it.
pub fn unsubscribe_token() -> (out: (String, Vec<u8>))
    ensures
        out.0@.len() == 36,
        parses_as_uuid(out.0@),
        out.1@ == sha256_of_utf8(out.0@),
        out.1@.len() == 32,
{
    let token = new_uuid();
    let hash = crate::password::hash_token(token.as_str());
    (token, hash)
}

/// The hash to look an unsubscribe token up by; none for text that is not
/// a UUID, which no link carries. A token that `unsubscribe_token` issued
/// is always looked up by the hash stored with it.
pub fn unsubscribe_lookup(token: &str) -> (out: Option<Vec<u8>>)
    ensures
        out is Some <==> parses_as_uuid(token@),
        out matches Some(h) ==> h@ == sha256_of_utf8(token@),
{
    if !is_uuid(token) {
        return None;
    }
    Some(crate::password::hash_token(token))
}

// ---------------------------------------------------------------- Activity

/// An Activity page lists 1 to 50 entries before a positive event, if any.
pub fn check_activity_cursor(before_event_id: Option<i64>, limit: u64) -> (out: Result<(), Error>)
    ensures
        out is Ok <==> 1 <= limit <= 50 && (before_event_id matches Some(id) ==> id > 0),
        out matches Err(e) ==> error_is(e, ErrorType::BadRequest, activity_cursor_message()),
{
    let bad_cursor = match before_event_id {
        Some(id) => id <= 0,
        None => false,
    };
    if limit < 1 || limit > 50 || bad_cursor {
        return Err(Error::new(string_from_chars(&activity_cursor_message_chars()), ErrorType::BadRequest));
    }
    Ok(())
}

/// Where the next Activity page starts: after the last of the `limit`
/// events read, when more than `limit` were found.
pub fn next_before(event_ids: &[i64], limit: u64) -> (out: Option<i64>)
    requires
        1 <= limit <= 50,
    ensures
        event_ids@.len() > limit ==> out == Some(event_ids@[limit - 1]),
        event_ids@.len() <= limit ==> out is None,
{
    if event_ids.len() as u64 > limit {
        Some(event_ids[(limit - 1) as usize])
    } else {
        None
    }
}

/// How an Activity entry names a change.
pub fn event_type(edited: bool) -> (out: String)
    ensures
        out@ == if edited { edit_event() } else { create_event() },
{
    if edited { string_from_chars(&edit_event_chars()) } else { string_from_chars(&create_event_chars()) }
}

/// Whether a recipient may see a change: a regular account that is not
/// deleted, on a page of the change's site, allowed to view the site and
/// the page. Their slug is what the page is rendered for.
pub fn recipient_view(deleted: bool, regular: bool, page_site_id: Option<i64>, change_site_id: i64, site_allowed: bool, page_allowed: bool, slug: String) -> (out: Option<String>)
    ensures
        out is Some <==> !deleted && regular && page_site_id == Some(change_site_id) && site_allowed && page_allowed,
        out matches Some(s) ==> s == slug,
{
    if deleted || !regular {
        return None;
    }
    if page_site_id != Some(change_site_id) {
        return None;
    }
    if site_allowed && page_allowed { Some(slug) } else { None }
}

} // verus!
