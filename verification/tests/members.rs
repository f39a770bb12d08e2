use deepwell::error::ErrorType;
use deepwell::applications::{application_message, check_submission, decide_outcome, require_user};
use deepwell::members::{
    admin_session_user, check_not_root, check_not_self, highest_role,
    holds_admin, invite_account, invite_address, invite_output, plan_role_change,
    InviteAccount, MemberRole,
};

#[test]
fn role_names_read_back_as_their_roles() {
    for role in [MemberRole::Member, MemberRole::Moderator, MemberRole::Admin, MemberRole::Root] {
        assert_eq!(MemberRole::from_role_name(&role.role_name()), Some(role));
    }
    assert_eq!(MemberRole::Moderator.role_name(), "moderator");
    assert_eq!(MemberRole::from_role_name("Admin"), None);
    assert_eq!(MemberRole::from_role_name("owner"), None);
}

#[test]
fn the_highest_held_role_is_shown() {
    assert_eq!(highest_role(&[]), MemberRole::Member);
    assert_eq!(
        highest_role(&[(MemberRole::Member, 1), (MemberRole::Admin, 3), (MemberRole::Moderator, 2)]),
        MemberRole::Admin
    );
    assert!(holds_admin(&[(MemberRole::Root, 4)]));
    assert!(!holds_admin(&[(MemberRole::Member, 1), (MemberRole::Moderator, 2)]));
}

#[test]
fn a_role_change_revokes_other_roles_and_grants_missing_ones() {
    let held = [(MemberRole::Member, 1), (MemberRole::Moderator, 2), (MemberRole::Admin, 3)];
    let change = plan_role_change(&held, MemberRole::Admin).unwrap();
    assert_eq!(change.revoke, vec![2]);
    assert!(change.grant.is_empty());

    let change = plan_role_change(&[(MemberRole::Admin, 3)], MemberRole::Moderator).unwrap();
    assert_eq!(change.revoke, vec![3]);
    assert_eq!(change.grant, vec![MemberRole::Member, MemberRole::Moderator]);

    let change = plan_role_change(&held, MemberRole::Member).unwrap();
    assert_eq!(change.revoke, vec![2, 3]);
    assert!(change.grant.is_empty());
}

#[test]
fn the_root_role_cannot_be_assigned() {
    let error = plan_role_change(&[], MemberRole::Root).unwrap_err();
    assert_eq!(error.error_type, ErrorType::BadRequest);
    assert_eq!(error.message, "the root role cannot be assigned");
}

#[test]
fn admins_cannot_change_themselves_or_the_root_member() {
    let error = check_not_self(7, 7, "remove").unwrap_err();
    assert_eq!((error.error_type, error.message.as_str()), (ErrorType::OwnMembership, "you cannot remove yourself"));
    assert!(check_not_self(7, 8, "remove").is_ok());
    let error = check_not_root(&[(MemberRole::Member, 1), (MemberRole::Root, 9)], "change the role of").unwrap_err();
    assert_eq!(error.error_type, ErrorType::RootMemberProtected);
    assert_eq!(error.message, "you cannot change the role of the site's root member");
    assert!(check_not_root(&[(MemberRole::Admin, 3)], "remove").is_ok());
}

#[test]
fn only_signed_in_unrestricted_sessions_administer_members() {
    assert_eq!(admin_session_user(Some(5), false).unwrap(), 5);
    let error = admin_session_user(Some(5), true).unwrap_err();
    assert_eq!((error.error_type, error.message.as_str()), (ErrorType::PermissionDenied, "only site admins manage members"));
    assert!(admin_session_user(None, false).is_err());
}

#[test]
fn invites_need_an_address_and_a_name_for_new_accounts() {
    assert_eq!(invite_address("  bob@example.com \n").unwrap(), "bob@example.com");
    let error = invite_address("   ").unwrap_err();
    assert_eq!((error.error_type, error.message.as_str()), (ErrorType::UserEmailEmpty, "email cannot be empty"));
    assert!(matches!(invite_account(Some(3), None), Ok(InviteAccount::Existing(3))));
    match invite_account(None, Some(" Bob ")) {
        Ok(InviteAccount::Create(name)) => assert_eq!(name, "Bob"),
        other => panic!("unexpected {other:?}"),
    }
    let error = invite_account(None, Some("  ")).unwrap_err();
    assert_eq!(error.error_type, ErrorType::UserNameRequired);
    assert!(invite_account(None, None).is_err());
    let output = invite_output(9, true);
    assert_eq!((output.user_id, output.created, output.emailed), (9, true, true));
}

#[test]
fn applications_need_a_short_message_and_a_full_session() {
    assert_eq!(application_message("  Please let me in. ").unwrap(), "Please let me in.");
    assert!(application_message(" \n ").is_err());
    assert!(application_message(&"x".repeat(2000)).is_ok());
    let error = application_message(&"é".repeat(2001)).unwrap_err();
    assert_eq!(error.message, "application message must be 1–2000 characters");
    assert_eq!(require_user(1, Some(2), false).unwrap(), (1, 2));
    assert_eq!(require_user(1, Some(2), true).unwrap_err().message, "restricted session");
    assert_eq!(require_user(1, None, false).unwrap_err().message, "sign in to apply");
}

#[test]
fn submissions_and_decisions_follow_membership_and_pending_state() {
    assert!(check_submission(true, false, false).is_ok());
    let error = check_submission(false, true, true).unwrap_err();
    assert_eq!((error.error_type, error.message.as_str()), (ErrorType::PermissionDenied, "only regular accounts may apply"));
    let error = check_submission(true, true, true).unwrap_err();
    assert_eq!((error.error_type, error.message.as_str()), (ErrorType::SiteMemberExists, "already a site member"));
    let error = check_submission(true, false, true).unwrap_err();
    assert_eq!((error.error_type, error.message.as_str()), (ErrorType::BadRequest, "application already pending"));

    assert_eq!(decide_outcome(true, true, false).unwrap(), true);
    assert_eq!(decide_outcome(true, false, true).unwrap(), false);
    let error = decide_outcome(false, true, false).unwrap_err();
    assert_eq!((error.error_type, error.message.as_str()), (ErrorType::BadRequest, "no pending application"));
    let error = decide_outcome(true, true, true).unwrap_err();
    assert_eq!(error.error_type, ErrorType::SiteMemberExists);
}
