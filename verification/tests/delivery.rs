use deepwell::delivery::{
    attempt_result, check_activity_cursor, compose_email, delivery_claim, eligible_email_recipient,
    event_type, next_before, recipient_view, unsubscribe_lookup, unsubscribe_token, ChangeVisibility,
    WatchedChange, change_recipients, check_previous_revision, covers, initial_email_status,
};
use deepwell::watching::{WatchScope, WatchSubscription};

#[test]
fn only_pending_enabled_verified_recipients_are_emailed() {
    let account = || Some((false, true, "a@b.c".to_owned()));
    assert_eq!(eligible_email_recipient("pending", Some(true), account()).as_deref(), Some("a@b.c"));
    assert_eq!(eligible_email_recipient("disabled", Some(true), account()), None);
    assert_eq!(eligible_email_recipient("pending", None, account()), None);
    assert_eq!(eligible_email_recipient("pending", Some(true), Some((true, true, "a@b.c".into()))), None);
    assert_eq!(eligible_email_recipient("pending", Some(true), Some((false, false, "a@b.c".into()))), None);
}

#[test]
fn claims_record_what_happened_before_anything_is_sent() {
    let hidden = delivery_claim(ChangeVisibility::Hidden, true, true);
    assert_eq!((hidden.activity_ready, hidden.email_status.as_str(), hidden.send), (false, "disabled", false));
    let failed = delivery_claim(ChangeVisibility::Failed, true, true);
    assert_eq!(failed.failure.as_deref(), Some("revision visibility/rendering failed"));
    let unconfigured = delivery_claim(ChangeVisibility::Visible, true, false);
    assert_eq!((unconfigured.activity_ready, unconfigured.email_status.as_str()), (true, "failed"));
    assert_eq!(unconfigured.failure.as_deref(), Some("email sender is not configured"));
    let quiet = delivery_claim(ChangeVisibility::Visible, false, true);
    assert_eq!((quiet.email_status.as_str(), quiet.send), ("disabled", false));
    let sending = delivery_claim(ChangeVisibility::Visible, true, true);
    assert_eq!((sending.email_status.as_str(), sending.send, sending.failure), ("attempted", true, None));
    assert_eq!(attempt_result(true), ("sent".to_owned(), None));
    assert_eq!(attempt_result(false), ("failed".to_owned(), Some("email attempt failed; delivery may be uncertain".to_owned())));
}

#[test]
fn watcher_emails_summarize_the_change_and_link_to_it() {
    let change = WatchedChange {
        event_id: 12,
        created_at: 0,
        edited: true,
        title: "Line\none".into(),
        before: Some("red one".into()),
        after: "red two".into(),
    };
    let email = compose_email("w@b.c".into(), "site.example", "Alice", &change, "tok");
    assert_eq!(email.to, "w@b.c");
    assert_eq!(email.subject, "Line one was edited");
    assert_eq!(
        email.text,
        "Line one\nAlice edited this page at 1970-01-01 0:00:00.0 +00:00:00.\n\n- one\n+ two\n\nComplete change: https://site.example/-/activity?event=12\n\nStop watcher email: https://site.example/-/watching-unsubscribe?token=tok\nActivity and watches are not removed by unsubscribing."
    );
    assert_eq!(email.html, None);
}

#[test]
fn unsubscribe_tokens_are_uuids_stored_hashed() {
    let (token, hash) = unsubscribe_token();
    assert_eq!(token.len(), 36);
    assert_eq!(unsubscribe_lookup(&token), Some(hash));
    assert_eq!(unsubscribe_lookup("not-a-token"), None);
}

#[test]
fn activity_pages_are_bounded_and_continue_after_the_last_event() {
    assert!(check_activity_cursor(None, 1).is_ok());
    assert!(check_activity_cursor(Some(5), 50).is_ok());
    assert_eq!(check_activity_cursor(Some(0), 10).unwrap_err().message, "invalid Activity cursor or limit");
    assert!(check_activity_cursor(None, 51).is_err());
    assert_eq!(next_before(&[9, 8, 7], 2), Some(8));
    assert_eq!(next_before(&[9, 8], 2), None);
    assert_eq!(event_type(true), "edit");
    assert_eq!(event_type(false), "create");
}

#[test]
fn recipients_need_current_access_to_the_page() {
    assert_eq!(recipient_view(false, true, Some(1), 1, true, true, "bob".into()).as_deref(), Some("bob"));
    assert_eq!(recipient_view(false, true, Some(2), 1, true, true, "bob".into()), None);
    assert_eq!(recipient_view(false, true, Some(1), 1, true, false, "bob".into()), None);
    assert_eq!(recipient_view(true, true, Some(1), 1, true, true, "bob".into()), None);
}

#[test]
fn covering_watchers_but_the_author_are_notified_once() {
    let site = WatchSubscription { scope: WatchScope::Site, target_id: 1 };
    let category = WatchSubscription { scope: WatchScope::Category, target_id: 5 };
    let other_category = WatchSubscription { scope: WatchScope::Category, target_id: 6 };
    let page = WatchSubscription { scope: WatchScope::Page, target_id: 9 };
    assert!(covers(site, 5, 9) && covers(category, 5, 9) && covers(page, 5, 9));
    assert!(!covers(other_category, 5, 9));
    let subscriptions = [(10, page), (11, other_category), (12, site), (10, category), (13, page), (12, page)];
    let mut recipients = change_recipients(&subscriptions, 13, 5, 9);
    recipients.sort();
    assert_eq!(recipients, vec![10, 12]);
    assert_eq!(initial_email_status(Some(true)), "pending");
    assert_eq!(initial_email_status(Some(false)), "disabled");
    assert_eq!(initial_email_status(None), "disabled");
    assert!(check_previous_revision(9, 1, 9, 1).is_ok());
    assert_eq!(check_previous_revision(8, 1, 9, 1).unwrap_err().message, "watch revisions belong to different pages");
}
