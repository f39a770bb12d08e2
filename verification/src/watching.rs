//! Watching pages: what a subscription covers and how it is stored, and the
//! bounded, change-only summaries of rendered text sent to watchers.

use crate::error::{Error, ErrorType, error_is};
use similar::{ChangeTag, TextDiff};
use crate::text::{push_all, push_sub, str_chars, string_from_chars, words};
use vstd::prelude::*;

verus! {

/// Reports a stored subscription with both a category and a page.
pub open spec fn invalid_scope_message() -> Seq<char> {
    seq!['i', 'n', 'v', 'a', 'l', 'i', 'd', ' ', 'w', 'a', 't', 'c', 'h', ' ', 's', 'u', 'b', 's', 'c', 'r', 'i', 'p', 't', 'i', 'o', 'n', ' ', 's', 'c', 'o', 'p', 'e']
}

pub fn invalid_scope_message_chars() -> (out: Vec<char>)
    ensures
        out@ == invalid_scope_message(),
{
    vec!['i', 'n', 'v', 'a', 'l', 'i', 'd', ' ', 'w', 'a', 't', 'c', 'h', ' ', 's', 'u', 'b', 's', 'c', 'r', 'i', 'p', 't', 'i', 'o', 'n', ' ', 's', 'c', 'o', 'p', 'e']
}

/// Refuses to watch what the user cannot see.
pub open spec fn denied_message() -> Seq<char> {
    seq!['w', 'a', 't', 'c', 'h', ' ', 't', 'a', 'r', 'g', 'e', 't', ' ', 'i', 's', ' ', 'n', 'o', 't', ' ', 'v', 'i', 's', 'i', 'b', 'l', 'e', ' ', 'i', 'n', ' ', 't', 'h', 'i', 's', ' ', 's', 'i', 't', 'e']
}

pub fn denied_message_chars() -> (out: Vec<char>)
    ensures
        out@ == denied_message(),
{
    vec!['w', 'a', 't', 'c', 'h', ' ', 't', 'a', 'r', 'g', 'e', 't', ' ', 'i', 's', ' ', 'n', 'o', 't', ' ', 'v', 'i', 's', 'i', 'b', 'l', 'e', ' ', 'i', 'n', ' ', 't', 'h', 'i', 's', ' ', 's', 'i', 't', 'e']
}

/// Refuses a watch request without a user.
pub open spec fn no_user_message() -> Seq<char> {
    seq!['t', 'h', 'i', 's', ' ', 'r', 'e', 'q', 'u', 'e', 's', 't', ' ', 'h', 'a', 's', ' ', 'n', 'o', ' ', 's', 'i', 'g', 'n', 'e', 'd', '-', 'i', 'n', ' ', 'u', 's', 'e', 'r']
}

pub fn no_user_message_chars() -> (out: Vec<char>)
    ensures
        out@ == no_user_message(),
{
    vec!['t', 'h', 'i', 's', ' ', 'r', 'e', 'q', 'u', 'e', 's', 't', ' ', 'h', 'a', 's', ' ', 'n', 'o', ' ', 's', 'i', 'g', 'n', 'e', 'd', '-', 'i', 'n', ' ', 'u', 's', 'e', 'r']
}

/// Marks removed text.
pub open spec fn delete_marker() -> Seq<char> {
    seq!['-', ' ']
}

/// Marks added text.
pub open spec fn insert_marker() -> Seq<char> {
    seq!['+', ' ']
}


// ---------------------------------------------------------------- subscriptions

#[derive(Debug, Clone, Copy, PartialEq, Eq, Structural)]
pub enum WatchScope {
    Site,
    Category,
    Page,
}

#[derive(Debug, Clone, Copy, PartialEq, Eq, Structural)]
pub struct WatchPreferences {
    pub email_enabled: bool,
    pub auto_watch: bool,
}

impl Default for WatchPreferences {
    /// Nothing is emailed or watched until the user asks.
    fn default() -> (out: Self)
        ensures
            !out.email_enabled,
            !out.auto_watch,
    {
        WatchPreferences { email_enabled: false, auto_watch: false }
    }
}

#[derive(Debug, Clone, Copy, PartialEq, Eq, Structural)]
pub struct WatchSubscription {
    pub scope: WatchScope,
    pub target_id: i64,
}

#[derive(Debug, Clone, Copy, PartialEq, Eq, Structural)]
pub struct SetSubscriptionOutput {
    pub watching: bool,
}

/// The stored columns of a subscription: its category and page, none for a
/// whole site.
pub open spec fn scope_columns_spec(scope: WatchScope, target_id: i64) -> (Option<i64>, Option<i64>) {
    match scope {
        WatchScope::Site => (None, None),
        WatchScope::Category => (Some(target_id), None),
        WatchScope::Page => (None, Some(target_id)),
    }
}

pub fn scope_columns(scope: WatchScope, target_id: i64) -> (out: (Option<i64>, Option<i64>))
    ensures
        out == scope_columns_spec(scope, target_id),
{
    match scope {
        WatchScope::Site => (None, None),
        WatchScope::Category => (Some(target_id), None),
        WatchScope::Page => (None, Some(target_id)),
    }
}

/// The subscription stored as `category_id` and `page_id` in site `site_id`;
/// a row with both is invalid.
pub open spec fn subscription_of_spec(category_id: Option<i64>, page_id: Option<i64>, site_id: i64) -> Option<WatchSubscription> {
    match (category_id, page_id) {
        (Some(c), None) => Some(WatchSubscription { scope: WatchScope::Category, target_id: c }),
        (None, Some(p)) => Some(WatchSubscription { scope: WatchScope::Page, target_id: p }),
        (None, None) => Some(WatchSubscription { scope: WatchScope::Site, target_id: site_id }),
        (Some(_), Some(_)) => None,
    }
}

/// The subscription a stored row describes.
pub fn subscription_from_columns(category_id: Option<i64>, page_id: Option<i64>, site_id: i64) -> (out: Result<WatchSubscription, Error>)
    ensures
        subscription_of_spec(category_id, page_id, site_id) matches Some(s) ==> out == Ok::<WatchSubscription, Error>(s),
        subscription_of_spec(category_id, page_id, site_id) is None ==> (out matches Err(e) && error_is(e, ErrorType::User, invalid_scope_message())),
{
    match (category_id, page_id) {
        (Some(c), None) => Ok(WatchSubscription { scope: WatchScope::Category, target_id: c }),
        (None, Some(p)) => Ok(WatchSubscription { scope: WatchScope::Page, target_id: p }),
        (None, None) => Ok(WatchSubscription { scope: WatchScope::Site, target_id: site_id }),
        (Some(_), Some(_)) => Err(Error::new(string_from_chars(&invalid_scope_message_chars()), ErrorType::User)),
    }
}

/// A stored subscription reads back as the one stored: every category or
/// page subscription, and a site subscription of the site it is stored in.
pub proof fn lemma_subscription_round_trip(scope: WatchScope, target_id: i64, site_id: i64)
    requires
        scope == WatchScope::Site ==> target_id == site_id,
    ensures
        subscription_of_spec(scope_columns_spec(scope, target_id).0, scope_columns_spec(scope, target_id).1, site_id)
            == Some(WatchSubscription { scope, target_id }),
{
}

/// The refusal to watch something not visible to the user.
pub fn denied() -> (out: Error)
    ensures
        error_is(out, ErrorType::PermissionDenied, denied_message()),
{
    Error::new(string_from_chars(&denied_message_chars()), ErrorType::PermissionDenied)
}

/// The user a watch request acts for.
pub fn request_user(user_id: Option<i64>) -> (out: Result<i64, Error>)
    ensures
        user_id matches Some(u) ==> out == Ok::<i64, Error>(u),
        user_id is None ==> (out matches Err(e) && error_is(e, ErrorType::PermissionDenied, no_user_message())),
{
    match user_id {
        Some(u) => Ok(u),
        None => Err(Error::new(string_from_chars(&no_user_message_chars()), ErrorType::PermissionDenied)),
    }
}

/// Refuses watcher email to an account without a verified address.
pub open spec fn verified_email_message() -> Seq<char> {
    seq!['v', 'e', 'r', 'i', 'f', 'i', 'e', 'd', ' ', 'e', 'm', 'a', 'i', 'l', ' ', 'r', 'e', 'q', 'u', 'i', 'r', 'e', 'd', ' ', 'f', 'o', 'r', ' ', 'w', 'a', 't', 'c', 'h', 'e', 'r', ' ', 'e', 'm', 'a', 'i', 'l']
}

pub fn verified_email_message_chars() -> (out: Vec<char>)
    ensures
        out@ == verified_email_message(),
{
    vec!['v', 'e', 'r', 'i', 'f', 'i', 'e', 'd', ' ', 'e', 'm', 'a', 'i', 'l', ' ', 'r', 'e', 'q', 'u', 'i', 'r', 'e', 'd', ' ', 'f', 'o', 'r', ' ', 'w', 'a', 't', 'c', 'h', 'e', 'r', ' ', 'e', 'm', 'a', 'i', 'l']
}

/// Watcher email goes only to a verified address: preferences that turn it
/// on are saved only for a user whose email is verified.
pub fn check_preferences(preferences: WatchPreferences, email_verified: bool) -> (out: Result<WatchPreferences, Error>)
    ensures
        out is Ok <==> !preferences.email_enabled || email_verified,
        out matches Ok(p) ==> p == preferences,
        out matches Err(e) ==> error_is(e, ErrorType::BadRequest, verified_email_message()),
{
    if preferences.email_enabled && !email_verified {
        return Err(Error::new(string_from_chars(&verified_email_message_chars()), ErrorType::BadRequest));
    }
    Ok(preferences)
}

/// What decides whether a user who may view the site may watch a target.
#[derive(Debug, Clone, Copy, PartialEq, Eq, Structural)]
pub enum TargetCheck {
    /// Decided without a permission check.
    Decided(bool),
    /// Decided by the user's permission to view pages of this category,
    /// and this page if there is one.
    ViewPages { category_id: i64, page_id: Option<i64> },
}

/// How a watch target is checked, given what was found of it: for a
/// category, `Some` when the site has it; for a page, its site and category
/// when it exists. A site target is the site itself or nothing; a category
/// or page is checked by page view permission there, provided it exists on
/// this site.
pub fn target_check(site_id: i64, scope: WatchScope, target_id: i64, found: Option<(i64, i64)>) -> (out: TargetCheck)
    ensures
        out == match scope {
            WatchScope::Site => TargetCheck::Decided(target_id == site_id),
            WatchScope::Category => match found {
                Some(_) => TargetCheck::ViewPages { category_id: target_id, page_id: None },
                None => TargetCheck::Decided(false),
            },
            WatchScope::Page => match found {
                Some((page_site, category)) => if page_site == site_id {
                    TargetCheck::ViewPages { category_id: category, page_id: Some(target_id) }
                } else {
                    TargetCheck::Decided(false)
                },
                None => TargetCheck::Decided(false),
            },
        },
{
    match scope {
        WatchScope::Site => TargetCheck::Decided(target_id == site_id),
        WatchScope::Category => match found {
            Some(_) => TargetCheck::ViewPages { category_id: target_id, page_id: None },
            None => TargetCheck::Decided(false),
        },
        WatchScope::Page => match found {
            Some((page_site, category)) => {
                if page_site == site_id {
                    TargetCheck::ViewPages { category_id: category, page_id: Some(target_id) }
                } else {
                    TargetCheck::Decided(false)
                }
            },
            None => TargetCheck::Decided(false),
        },
    }
}

/// The subscriptions among `subscriptions` whose flag in `visible` is set,
/// in order.
pub open spec fn kept_where(subscriptions: Seq<WatchSubscription>, visible: Seq<bool>) -> Seq<WatchSubscription>
    decreases subscriptions.len(),
{
    if subscriptions.len() == 0 || visible.len() != subscriptions.len() {
        seq![]
    } else {
        let rest = kept_where(subscriptions.drop_last(), visible.drop_last());
        if visible.last() { rest.push(subscriptions.last()) } else { rest }
    }
}

/// The subscriptions a user is shown on a site: none when the user may not
/// view the site; else those whose target the user may still watch
/// (`visible`, one answer each from `target_check` and the permission it
/// asks for), in the order they were made.
pub fn visible_subscriptions(site_visible: bool, subscriptions: &Vec<WatchSubscription>, visible: &Vec<bool>) -> (out: Vec<WatchSubscription>)
    requires
        site_visible ==> visible@.len() == subscriptions@.len(),
    ensures
        out@ == if site_visible { kept_where(subscriptions@, visible@) } else { seq![] },
{
    let mut out: Vec<WatchSubscription> = Vec::new();
    if !site_visible {
        return out;
    }
    let mut i: usize = 0;
    while i < subscriptions.len()
        invariant
            i <= subscriptions@.len() == visible@.len(),
            out@ == kept_where(subscriptions@.take(i as int), visible@.take(i as int)),
        decreases subscriptions@.len() - i,
    {
        assert(subscriptions@.take(i + 1).drop_last() =~= subscriptions@.take(i as int));
        assert(visible@.take(i + 1).drop_last() =~= visible@.take(i as int));
        if visible[i] {
            out.push(subscriptions[i]);
        }
        i = i + 1;
    }
    assert(subscriptions@.take(subscriptions@.len() as int) =~= subscriptions@);
    assert(visible@.take(visible@.len() as int) =~= visible@);
    out
}

/// Whether a subscription change may be written: watching needs a visible
/// target (`visible`, asked only when watching), and a site subscription
/// must name the site.
pub fn check_subscription_change(site_id: i64, scope: WatchScope, target_id: i64, watching: bool, visible: bool) -> (out: Result<(), Error>)
    ensures
        out is Ok <==> (!watching || visible) && (scope != WatchScope::Site || target_id == site_id),
        out matches Err(e) ==> error_is(e, ErrorType::PermissionDenied, denied_message()),
{
    if watching && !visible {
        return Err(denied());
    }
    if scope == WatchScope::Site && target_id != site_id {
        return Err(denied());
    }
    Ok(())
}

/// The text a watcher may see of a change.
#[derive(Debug)]
pub struct VisibleChange {
    pub title: String,
    pub slug: String,
    pub before: Option<String>,
    pub after: String,
}

#[derive(Debug, Clone, Copy, PartialEq, Eq, Structural)]
pub struct ChangeRevisions {
    pub site_id: i64,
    pub page_id: i64,
    pub previous_revision_id: Option<i64>,
    pub new_revision_id: i64,
}

impl ChangeRevisions {
    /// Whether a stored revision may stand in a watcher's view of this
    /// change: it belongs to the changed page of the changed site and none of
    /// its fields is hidden.
    pub fn shows_revision(&self, revision_site_id: i64, revision_page_id: i64, hidden: &[String]) -> (out: bool)
        ensures
            out == (revision_site_id == self.site_id && revision_page_id == self.page_id && hidden@.len() == 0),
    {
        revision_site_id == self.site_id && revision_page_id == self.page_id && hidden.len() == 0
    }
}

// ---------------------------------------------------------------- summaries

pub const MAX_SUMMARY_CHARS: usize = 1_000;

/// Whether a run of words was kept, removed or added.
#[derive(Debug, Clone, Copy, PartialEq, Eq, Structural)]
pub enum DiffTag {
    Equal,
    Delete,
    Insert,
}

/// The word diff of `before` into `after`: each change's tag and text.
pub uninterp spec fn word_diff(before: Seq<char>, after: Seq<char>) -> Seq<(DiffTag, Seq<char>)>;

/// `similar`'s word diff (`TextDiff::configure().diff_words`, no deadline)
/// of `before` into `after`, each change as its tag and text. The changes
/// are named; nothing more of them is stated.
#[verifier::external_body]
fn word_changes(before: &str, after: &str) -> (out: Vec<(DiffTag, String)>)
    ensures
        out@.map_values(|c: (DiffTag, String)| (c.0, c.1@)) == word_diff(before@, after@),
{
    let diff = TextDiff::configure().diff_words(before, after);
    diff.iter_all_changes()
        .map(|change| match change.tag() {
            ChangeTag::Equal => (DiffTag::Equal, change.value().to_string()),
            ChangeTag::Delete => (DiffTag::Delete, change.value().to_string()),
            ChangeTag::Insert => (DiffTag::Insert, change.value().to_string()),
        })
        .collect()
}

pub open spec fn marker(tag: DiffTag) -> Seq<char> {
    if tag == DiffTag::Delete { delete_marker() } else { insert_marker() }
}

pub open spec fn min_int(a: int, b: int) -> int {
    if a <= b { a } else { b }
}

/// `summary` with the change `text` of kind `tag` appended within the
/// character budget, and whether the budget is used up.
pub open spec fn append_change_spec(summary: Seq<char>, tag: DiffTag, text: Seq<char>) -> (Seq<char>, bool) {
    if tag == DiffTag::Equal || text.len() == 0 {
        (summary, false)
    } else {
        let sep: int = if summary.len() > 0 { 1 } else { 0 };
        let available = MAX_SUMMARY_CHARS - summary.len();
        if available <= sep + 2 {
            (summary, true)
        } else {
            let added = (if sep == 1 { seq!['\n'] } else { seq![] }) + marker(tag)
                + text.take(min_int(text.len() as int, available - sep - 2));
            (summary + added, (summary + added).len() == MAX_SUMMARY_CHARS)
        }
    }
}

/// Where summarizing stands: the summary so far, the kind and text of the
/// change being gathered, and whether the budget is used up.
pub ghost struct SummaryState {
    pub summary: Seq<char>,
    pub pending: Option<DiffTag>,
    pub text: Seq<char>,
    pub done: bool,
}

/// One change: a change of another kind than the one gathered ends it, and
/// unchanged words end any gathering.
pub open spec fn summary_step(st: SummaryState, change: (DiffTag, Seq<char>)) -> SummaryState {
    let tag = change.0;
    let (st1, stopped) = if st.pending != Some(tag) {
        match st.pending {
            Some(previous) => {
                let (s, full) = append_change_spec(st.summary, previous, st.text);
                (SummaryState { summary: s, pending: Some(tag), text: seq![], done: full }, full)
            },
            None => (SummaryState { pending: Some(tag), ..st }, false),
        }
    } else {
        (st, false)
    };
    if stopped {
        st1
    } else if tag == DiffTag::Equal {
        SummaryState { pending: None, ..st1 }
    } else {
        SummaryState { text: st1.text + change.1, ..st1 }
    }
}

pub open spec fn summary_fold(changes: Seq<(DiffTag, Seq<char>)>) -> SummaryState
    decreases changes.len(),
{
    if changes.len() == 0 {
        SummaryState { summary: seq![], pending: None, text: seq![], done: false }
    } else {
        let st = summary_fold(changes.drop_last());
        if st.done { st } else { summary_step(st, changes.last()) }
    }
}

/// The summary of a list of changes: removals and additions, each run on a
/// line behind its marker, within the budget.
pub open spec fn summarize_spec(changes: Seq<(DiffTag, Seq<char>)>) -> Seq<char> {
    let st = summary_fold(changes);
    if st.done {
        st.summary
    } else {
        match st.pending {
            Some(tag) => append_change_spec(st.summary, tag, st.text).0,
            None => st.summary,
        }
    }
}

/// The summary of the change from `before` to `after`; a new page's text is
/// all added.
pub open spec fn rendered_diff_spec(before: Option<Seq<char>>, after: Seq<char>) -> Seq<char> {
    match before {
        None => append_change_spec(seq![], DiffTag::Insert, after).0,
        Some(b) => summarize_spec(word_diff(b, after)),
    }
}

proof fn lemma_append_within_budget(summary: Seq<char>, tag: DiffTag, text: Seq<char>)
    requires
        summary.len() <= MAX_SUMMARY_CHARS,
    ensures
        append_change_spec(summary, tag, text).0.len() <= MAX_SUMMARY_CHARS,
{
}

proof fn lemma_fold_within_budget(changes: Seq<(DiffTag, Seq<char>)>)
    ensures
        summary_fold(changes).summary.len() <= MAX_SUMMARY_CHARS,
    decreases changes.len(),
{
    if changes.len() > 0 {
        lemma_fold_within_budget(changes.drop_last());
        let st = summary_fold(changes.drop_last());
        if !st.done {
            match st.pending {
                Some(previous) => lemma_append_within_budget(st.summary, previous, st.text),
                None => {},
            }
        }
    }
}

/// A summary never exceeds its budget of characters, markers and line
/// breaks included.
pub proof fn lemma_summary_within_budget(before: Option<Seq<char>>, after: Seq<char>)
    ensures
        rendered_diff_spec(before, after).len() <= MAX_SUMMARY_CHARS,
{
    match before {
        None => lemma_append_within_budget(seq![], DiffTag::Insert, after),
        Some(b) => {
            let changes = word_diff(b, after);
            lemma_fold_within_budget(changes);
            let st = summary_fold(changes);
            if !st.done {
                match st.pending {
                    Some(tag) => lemma_append_within_budget(st.summary, tag, st.text),
                    None => {},
                }
            }
        },
    }
}

/// Appends a change within the budget; returns whether the budget is used up.
fn append_change(summary: &mut Vec<char>, tag: DiffTag, text: &[char]) -> (full: bool)
    requires
        old(summary)@.len() <= MAX_SUMMARY_CHARS,
    ensures
        (final(summary)@, full) == append_change_spec(old(summary)@, tag, text@),
{
    if tag == DiffTag::Equal || text.len() == 0 {
        return false;
    }
    let sep: usize = if summary.len() > 0 { 1 } else { 0 };
    let available = MAX_SUMMARY_CHARS - summary.len();
    if available <= sep + 2 {
        return true;
    }
    let ghost before = summary@;
    if sep != 0 {
        summary.push('\n');
    }
    if tag == DiffTag::Delete {
        summary.push('-');
    } else {
        summary.push('+');
    }
    summary.push(' ');
    let room = available - sep - 2;
    let take = if text.len() < room { text.len() } else { room };
    push_sub(summary, text, 0, take);
    proof {
        let added = (if sep == 1 { seq!['\n'] } else { seq![] }) + marker(tag)
            + text@.take(min_int(text@.len() as int, available - sep - 2));
        assert(text@.subrange(0, take as int) =~= text@.take(take as int));
        assert(summary@ =~= before + added);
    }
    summary.len() == MAX_SUMMARY_CHARS
}

/// The summary of a list of changes, within the budget.
pub fn summarize_changes(changes: &[(DiffTag, String)]) -> (out: String)
    ensures
        out@ == summarize_spec(changes@.map_values(|c: (DiffTag, String)| (c.0, c.1@))),
        out@.len() <= MAX_SUMMARY_CHARS,
{
    let ghost cs = changes@.map_values(|c: (DiffTag, String)| (c.0, c.1@));
    let mut summary: Vec<char> = Vec::new();
    let mut pending: Option<DiffTag> = None;
    let mut text: Vec<char> = Vec::new();
    let mut i: usize = 0;
    while i < changes.len()
        invariant
            i <= changes@.len(),
            cs == changes@.map_values(|c: (DiffTag, String)| (c.0, c.1@)),
            summary_fold(cs.take(i as int)) == (SummaryState { summary: summary@, pending, text: text@, done: false }),
            summary@.len() <= MAX_SUMMARY_CHARS,
        decreases changes@.len() - i,
    {
        proof { lemma_fold_within_budget(cs.take(i as int + 1)); }
        assert(cs.take(i as int + 1).drop_last() =~= cs.take(i as int));
        assert(cs.take(i as int + 1).last() == cs[i as int]);
        let tag = changes[i].0;
        if pending != Some(tag) {
            match pending {
                Some(previous) => {
                    let full = append_change(&mut summary, previous, &text);
                    if full {
                        proof {
                            assert forall|k: int| i + 1 <= k <= cs.len() implies summary_fold(#[trigger] cs.take(k)).done
                                && summary_fold(cs.take(k)).summary == summary@ by {
                                lemma_fold_done_stays(cs, i as int + 1, k);
                            }
                            assert(cs.take(cs.len() as int) =~= cs);
                        }
                        return string_from_chars(&summary);
                    }
                    text = Vec::new();
                },
                None => {},
            }
            pending = Some(tag);
        }
        if tag == DiffTag::Equal {
            pending = None;
        } else {
            push_all(&mut text, &str_chars(changes[i].1.as_str()));
        }
        i = i + 1;
    }
    assert(cs.take(changes@.len() as int) =~= cs);
    match pending {
        Some(tag) => {
            let _ = append_change(&mut summary, tag, &text);
        },
        None => {},
    }
    string_from_chars(&summary)
}

proof fn lemma_fold_done_stays(cs: Seq<(DiffTag, Seq<char>)>, j: int, k: int)
    requires
        0 <= j <= k <= cs.len(),
        summary_fold(cs.take(j)).done,
    ensures
        summary_fold(cs.take(k)).done,
        summary_fold(cs.take(k)).summary == summary_fold(cs.take(j)).summary,
    decreases k - j,
{
    if k > j {
        lemma_fold_done_stays(cs, j, k - 1);
        assert(cs.take(k).drop_last() =~= cs.take(k - 1));
    }
}

/// Summarizes changed rendered text, including markers in the character limit.
pub fn rendered_diff(before: Option<&str>, after: &str) -> (out: String)
    ensures
        out@ == rendered_diff_spec(match before { Some(b) => Some(b@), None => None }, after@),
        out@.len() <= MAX_SUMMARY_CHARS,
{
    match before {
        None => {
            let mut summary: Vec<char> = Vec::new();
            let _ = append_change(&mut summary, DiffTag::Insert, &str_chars(after));
            string_from_chars(&summary)
        },
        Some(b) => {
            let changes = word_changes(b, after);
            summarize_changes(&changes)
        },
    }
}

} // verus!
