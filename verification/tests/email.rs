use deepwell::email::{backoff, next_send_step, retry_after, MailgunConfig, OutgoingEmail, SendOutcome, SendStep};
use deepwell::error::ErrorType;

#[test]
fn unconfigured_sender_fails_naming_the_missing_variable() {
    let error = MailgunConfig::from_vars(Some("key-secret".into()), Some("mg.example.org".into()), Some("".into()))
        .err()
        .unwrap();
    assert_eq!(error.error_type, ErrorType::EmailSend);
    assert!(error.message.contains("MAILGUN_FROM"), "{}", error.message);

    let error = MailgunConfig::from_vars(None, None, None).err().unwrap();
    assert!(error.message.contains("MAILGUN_API_KEY"), "{}", error.message);

    let configured = MailgunConfig::from_vars(
        Some("key-secret".into()),
        Some("mg.example.org".into()),
        Some("Cobalt <a@b.c>".into()),
    )
    .ok()
    .unwrap();
    assert_eq!(configured.api_url, "https://api.mailgun.net");
}

#[test]
fn messages_are_posted_as_form_fields() {
    let config = MailgunConfig::new("http://127.0.0.1:9//".into(), "mg.example.org".into(), "k".into(), "Cobalt <noreply@mg.example.org>".into());
    assert_eq!(config.message_url(), "http://127.0.0.1:9/v3/mg.example.org/messages");
    let email = OutgoingEmail {
        to: "alice@example.com".into(),
        subject: "Set your password".into(),
        text: "Open https://cobalt.example/-/set-password/abc & choose one.".into(),
        html: None,
    };
    let form = config.message_form(&email);
    assert_eq!(
        form,
        vec![
            ("from".to_owned(), "Cobalt <noreply@mg.example.org>".to_owned()),
            ("to".to_owned(), "alice@example.com".to_owned()),
            ("subject".to_owned(), "Set your password".to_owned()),
            ("text".to_owned(), "Open https://cobalt.example/-/set-password/abc & choose one.".to_owned()),
        ]
    );
    let html = OutgoingEmail { html: Some("<p>Choose a password</p>".into()), ..email };
    assert_eq!(config.message_form(&html)[4], ("html".to_owned(), "<p>Choose a password</p>".to_owned()));
}

#[test]
fn rate_limited_send_is_retried_but_rejection_is_not() {
    let limited = SendOutcome::Status { code: 429, status_text: "429 Too Many Requests".into(), retry_after: Some("0".into()) };
    assert!(matches!(next_send_step(0, &limited, 250), SendStep::Retry(0)));
    let limited_no_header = SendOutcome::Status { code: 429, status_text: "429 Too Many Requests".into(), retry_after: None };
    assert!(matches!(next_send_step(1, &limited_no_header, 450), SendStep::Retry(450)));
    match next_send_step(2, &limited, 0) {
        SendStep::Fail(error) => assert_eq!(error.message, "Mailgun refused the message: HTTP 429 Too Many Requests"),
        other => panic!("unexpected {other:?}"),
    }
    let rejected = SendOutcome::Status { code: 500, status_text: "500 Internal Server Error".into(), retry_after: None };
    assert!(matches!(next_send_step(0, &rejected, 0), SendStep::Fail(_)));
    assert!(matches!(next_send_step(0, &SendOutcome::Accepted, 0), SendStep::Done));
    assert!(matches!(next_send_step(0, &SendOutcome::ConnectFailed("refused".into()), 230), SendStep::Retry(230)));
    match next_send_step(0, &SendOutcome::Failed("timed out".into()), 230) {
        SendStep::Fail(error) => assert_eq!(error.message, "Mailgun unavailable: timed out"),
        other => panic!("unexpected {other:?}"),
    }
    let slow = SendOutcome::Status { code: 429, status_text: "429".into(), retry_after: Some("11".into()) };
    match next_send_step(0, &slow, 0) {
        SendStep::Fail(error) => assert_eq!(error.message, "Mailgun Retry-After exceeds retry budget"),
        other => panic!("unexpected {other:?}"),
    }
}

#[test]
fn waits_grow_with_each_attempt() {
    for attempt in 0..3 {
        let wait = backoff(attempt);
        assert!((200 << attempt) <= wait && wait < (200 << attempt) + 100);
    }
    assert_eq!(retry_after(Some("+7")), Some(7));
    assert_eq!(retry_after(Some("Wed, 21 Oct 2015 07:28:00 GMT")), None);
}
