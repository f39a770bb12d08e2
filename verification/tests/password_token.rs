use deepwell::error::ErrorType;
use deepwell::password::{
    check_deliverable, check_new_password, check_redeemable, check_regular_user, generate_token,
    hash_token, invite_email, is_deliverable, link_path, link_status, link_url, reset_address,
    reset_allowed, reset_email, StoredLink,
};

#[test]
fn tokens_are_random_url_safe_and_stored_hashed() {
    let token = generate_token();
    assert_eq!(token.len(), 43);
    assert!(token.bytes().all(|b| b.is_ascii_alphanumeric() || b == b'-' || b == b'_'));
    assert_ne!(token, generate_token());
    assert_eq!(hash_token(&token), hash_token(&token));
    assert_ne!(hash_token(&token), token.as_bytes());
    assert_eq!(hash_token(&token).len(), 32);
}

#[test]
fn placeholder_addresses_are_not_deliverable() {
    assert!(!is_deliverable("wikidot-7444794@members.invalid"));
    assert!(!is_deliverable("WIKIDOT-1@MEMBERS.INVALID"));
    assert!(!is_deliverable(""));
    assert!(is_deliverable("alice@example.com"));
}

#[test]
fn hashes_are_sha256_of_the_token_text() {
    assert_eq!(
        hash_token("abc"),
        vec![
            0xba, 0x78, 0x16, 0xbf, 0x8f, 0x01, 0xcf, 0xea, 0x41, 0x41, 0x40, 0xde, 0x5d, 0xae,
            0x22, 0x23, 0xb0, 0x03, 0x61, 0xa3, 0x96, 0x17, 0x7a, 0x9c, 0xb4, 0x10, 0xff, 0x61,
            0xf2, 0x00, 0x15, 0xad
        ]
    );
}

#[test]
fn links_point_at_the_set_password_page() {
    assert_eq!(link_path("abc"), "/-/set-password/abc");
    assert_eq!(link_url("cobalt.example", "abc"), "https://cobalt.example/-/set-password/abc");
}

#[test]
fn emails_name_the_account_and_the_site() {
    let email = invite_email("Alice", "alice@example.com", "Cobalt", "https://c/x", 1_700_000_000_000_000_000);
    assert_eq!(email.to, "alice@example.com");
    assert_eq!(email.subject, "Choose your password for Cobalt");
    assert_eq!(
        email.text,
        "Hello Alice,\n\nYour account Alice on Cobalt is ready. To sign in, first choose a password here:\n\nhttps://c/x\n\nThe link works once and expires on 2023-11-14 (UTC).\n"
    );
    assert_eq!(email.html, None);
    let email = reset_email("Bob", "bob@example.com", "Cobalt", "https://c/y");
    assert_eq!(email.subject, "Reset your password for Cobalt");
    assert_eq!(
        email.text,
        "Hello Bob,\n\nSomeone asked to reset the password of your account Bob on Cobalt. To choose a new password, open:\n\nhttps://c/y\n\nThe link works once and expires in 24 hours. If you did not ask for this, ignore this email: your password stays the same.\n"
    );
}

#[test]
fn unknown_used_and_expired_links_fail_distinctly() {
    let link = |used, expires_at| Some(StoredLink { used, expires_at, emailed: false });
    assert_eq!(check_redeemable(None, 10).unwrap_err().error_type, ErrorType::PasswordTokenInvalid);
    assert_eq!(check_redeemable(link(true, 20), 10).unwrap_err().error_type, ErrorType::PasswordTokenUsed);
    assert_eq!(check_redeemable(link(false, 10), 10).unwrap_err().error_type, ErrorType::PasswordTokenExpired);
    assert!(check_redeemable(link(false, 11), 10).is_ok());
    assert_eq!(check_new_password("").unwrap_err().error_type, ErrorType::EmptyPassword);
    assert!(check_new_password("x").is_ok());
}

#[test]
fn status_reports_a_chosen_password_and_the_working_link() {
    let links = [
        StoredLink { used: true, expires_at: 5, emailed: true },
        StoredLink { used: false, expires_at: 9, emailed: false },
        StoredLink { used: false, expires_at: 30, emailed: true },
    ];
    let status = link_status(&links, 10);
    assert!(status.password_chosen);
    let pending = status.pending.unwrap();
    assert_eq!((pending.expires_at, pending.emailed), (30, true));
    assert_eq!(link_status(&[], 0).pending, None);
}

#[test]
fn requests_are_checked_before_anything_is_written() {
    let error = check_deliverable("alice", "a@members.invalid").unwrap_err();
    assert_eq!(error.message, "user alice has no deliverable email address");
    assert_eq!(check_regular_user("bot", false, false).unwrap_err().message, "user bot cannot sign in with a password");
    assert!(check_regular_user("alice", true, false).is_ok());
    assert_eq!(reset_address(" a@b.c ").unwrap(), "a@b.c");
    assert_eq!(reset_address("").unwrap_err().error_type, ErrorType::BadRequest);
    let minute = 60_000_000_000i128;
    assert!(reset_allowed(&[0], 11 * minute));
    assert!(!reset_allowed(&[0, 2 * minute], 11 * minute));
}
