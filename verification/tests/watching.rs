use deepwell::error::ErrorType;
use deepwell::watching::{
    check_preferences, check_subscription_change, rendered_diff, scope_columns, subscription_from_columns, summarize_changes, target_check, visible_subscriptions, ChangeRevisions, TargetCheck,
    DiffTag, WatchPreferences, WatchScope, WatchSubscription,
};

#[test]
fn reports_separated_edits_without_unchanged_text() {
    assert_eq!(
        rendered_diff(Some("red one blue two green"), "red ONE blue TWO green"),
        "- one\n+ ONE\n- two\n+ TWO"
    );
}

#[test]
fn reports_additions_and_removals() {
    assert_eq!(rendered_diff(Some("old"), "new"), "- old\n+ new");
    assert_eq!(rendered_diff(Some("old"), ""), "- old");
    assert_eq!(rendered_diff(Some(""), "new"), "+ new");
}

#[test]
fn unchanged_and_empty_inputs_have_no_changes() {
    assert_eq!(rendered_diff(Some("same"), "same"), "");
    assert_eq!(rendered_diff(Some(""), ""), "");
    assert_eq!(rendered_diff(None, ""), "");
}

#[test]
fn creation_includes_only_added_content() {
    assert_eq!(rendered_diff(None, "fresh page"), "+ fresh page");
}

#[test]
fn limits_creation_to_one_thousand_unicode_characters_including_marker() {
    let after = "界".repeat(1_100);
    let summary = rendered_diff(None, &after);
    assert_eq!(summary.chars().count(), 1_000);
    assert_eq!(summary, format!("+ {}", "界".repeat(998)));
}

#[test]
fn limits_combined_removals_and_additions_to_one_thousand_characters() {
    let before = "界".repeat(600);
    let after = "é".repeat(600);
    let summary = rendered_diff(Some(&before), &after);
    assert_eq!(summary.chars().count(), 1_000);
    assert_eq!(summary, format!("- {}\n+ {}", before, "é".repeat(395)));
}

#[test]
fn a_full_summary_drops_later_changes() {
    let changes = vec![
        (DiffTag::Delete, "a".repeat(997)),
        (DiffTag::Equal, " ".to_owned()),
        (DiffTag::Insert, "b".to_owned()),
    ];
    assert_eq!(summarize_changes(&changes), format!("- {}", "a".repeat(997)));
    let runs = vec![
        (DiffTag::Delete, "x".to_owned()),
        (DiffTag::Delete, "y".to_owned()),
        (DiffTag::Insert, "z".to_owned()),
    ];
    assert_eq!(summarize_changes(&runs), "- xy\n+ z");
}

#[test]
fn subscriptions_are_stored_by_category_and_page() {
    for (scope, target) in [(WatchScope::Site, 7), (WatchScope::Category, 3), (WatchScope::Page, 11)] {
        let (category_id, page_id) = scope_columns(scope, target);
        assert_eq!(
            subscription_from_columns(category_id, page_id, 7).unwrap(),
            WatchSubscription { scope, target_id: target }
        );
    }
    let error = subscription_from_columns(Some(1), Some(2), 7).unwrap_err();
    assert_eq!((error.error_type, error.message.as_str()), (ErrorType::User, "invalid watch subscription scope"));
}

#[test]
fn watching_needs_a_visible_target_in_the_site() {
    assert!(check_subscription_change(7, WatchScope::Page, 3, true, true).is_ok());
    assert!(check_subscription_change(7, WatchScope::Page, 3, false, false).is_ok());
    let error = check_subscription_change(7, WatchScope::Page, 3, true, false).unwrap_err();
    assert_eq!(error.message, "watch target is not visible in this site");
    assert!(check_subscription_change(7, WatchScope::Site, 8, false, true).is_err());
    let preferences = WatchPreferences::default();
    assert!(!preferences.email_enabled && !preferences.auto_watch);
}

#[test]
fn only_unhidden_revisions_of_the_changed_page_are_shown() {
    let change = ChangeRevisions { site_id: 1, page_id: 2, previous_revision_id: Some(3), new_revision_id: 4 };
    assert!(change.shows_revision(1, 2, &[]));
    assert!(!change.shows_revision(1, 2, &["wikitext".to_string()]));
    assert!(!change.shows_revision(1, 5, &[]));
    assert!(!change.shows_revision(9, 2, &[]));
}

#[test]
fn watcher_email_needs_a_verified_address() {
    let on = WatchPreferences { email_enabled: true, auto_watch: false };
    assert_eq!(check_preferences(on, true).unwrap(), on);
    let error = check_preferences(on, false).unwrap_err();
    assert_eq!((error.error_type, error.message.as_str()), (ErrorType::BadRequest, "verified email required for watcher email"));
    let off = WatchPreferences { email_enabled: false, auto_watch: true };
    assert_eq!(check_preferences(off, false).unwrap(), off);
}

#[test]
fn watch_targets_exist_on_the_site_and_need_page_view() {
    assert_eq!(target_check(1, WatchScope::Site, 1, None), TargetCheck::Decided(true));
    assert_eq!(target_check(1, WatchScope::Site, 2, None), TargetCheck::Decided(false));
    assert_eq!(target_check(1, WatchScope::Category, 5, Some((1, 5))), TargetCheck::ViewPages { category_id: 5, page_id: None });
    assert_eq!(target_check(1, WatchScope::Category, 5, None), TargetCheck::Decided(false));
    assert_eq!(target_check(1, WatchScope::Page, 9, Some((1, 5))), TargetCheck::ViewPages { category_id: 5, page_id: Some(9) });
    assert_eq!(target_check(1, WatchScope::Page, 9, Some((2, 5))), TargetCheck::Decided(false));
    assert_eq!(target_check(1, WatchScope::Page, 9, None), TargetCheck::Decided(false));
}

#[test]
fn users_see_subscriptions_they_may_still_watch() {
    let subscriptions = vec![
        WatchSubscription { scope: WatchScope::Site, target_id: 1 },
        WatchSubscription { scope: WatchScope::Page, target_id: 9 },
        WatchSubscription { scope: WatchScope::Category, target_id: 5 },
    ];
    assert_eq!(
        visible_subscriptions(true, &subscriptions, &vec![true, false, true]),
        vec![subscriptions[0], subscriptions[2]]
    );
    assert!(visible_subscriptions(false, &subscriptions, &vec![true, true, true]).is_empty());
}
