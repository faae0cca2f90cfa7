use myweb::domain::{NewSubscriber, SubscriberEmail, SubscriberName};
use myweb::errors::{error_chain_fmt, ConfirmError, SubscribeError};
use myweb::registry::{ConfirmOutcome, SubscriptionStatus, SubscriptionStore};
use myweb::token::{generate_subscription_token, parse_subscription_token};

#[test]
fn non_alphanumeric_tokens_are_parsed() {
    let token = "DROP TABLE subscribers;)";
    let parsed = parse_subscription_token(token);

    assert_eq!("DROPTABLEsubscribers".to_owned(), parsed);
}

#[test]
fn sanitising_keeps_unicode_letters_and_digits() {
    assert_eq!(parse_subscription_token("ab-12_é!"), "ab12é");
    assert_eq!(parse_subscription_token(""), "");
}

#[test]
fn generated_tokens_are_25_alphanumeric_characters() {
    let t = generate_subscription_token();
    assert_eq!(t.chars().count(), 25);
    assert!(t.chars().all(|c| c.is_ascii_alphanumeric()));
}

#[test]
fn generated_tokens_do_not_collide_in_a_batch() {
    let mut seen = std::collections::HashSet::new();
    for _ in 0..200 {
        assert!(seen.insert(generate_subscription_token()));
    }
}

#[test]
fn names_are_validated() {
    assert!(SubscriberName::parse("le guin".to_string()).is_ok());
    assert!(SubscriberName::parse("".to_string()).is_err());
    assert!(SubscriberName::parse("a".repeat(256)).is_ok());
    assert!(SubscriberName::parse("a".repeat(257)).is_err());
    assert!(SubscriberName::parse("bad\u{7}name".to_string()).is_err());
    assert_eq!(
        SubscriberName::parse("x\ny".to_string()).err().unwrap(),
        "x\ny is not a valid subscriber name."
    );
}

#[test]
fn emails_are_validated() {
    assert!(SubscriberEmail::parse("ursula_le_guin@gmail.com".to_string()).is_ok());
    assert!(SubscriberEmail::parse("ursuladomain.com".to_string()).is_err());
    assert!(SubscriberEmail::parse("@domain.com".to_string()).is_err());
    assert!(SubscriberEmail::parse("ursula@".to_string()).is_err());
    assert!(SubscriberEmail::parse("a@b@c".to_string()).is_err());
    assert!(SubscriberEmail::parse("a b@c".to_string()).is_err());
    assert!(SubscriberEmail::parse("".to_string()).is_err());
    assert_eq!(
        SubscriberEmail::parse("nope".to_string()).err().unwrap(),
        "nope is not a valid subscriber email."
    );
}

#[test]
fn subscribing_twice_returns_the_same_token_and_one_row() {
    let mut store = SubscriptionStore::new();
    let t1 = store.subscribe("a@b.com".to_string(), "A".to_string()).ok().unwrap();
    let t2 = store.subscribe("a@b.com".to_string(), "Other".to_string()).ok().unwrap();
    assert_eq!(t1, t2);
    assert_eq!(store.subscriber_count(), 1);
}

#[test]
fn invalid_input_is_a_validation_error_and_touches_nothing() {
    let mut store = SubscriptionStore::new();
    let e = store.subscribe("not-an-email".to_string(), "A".to_string()).err().unwrap();
    assert!(matches!(e, SubscribeError::ValidationError(_)));
    assert_eq!(e.status_code(), 400);
    assert_eq!(e.message(), "not-an-email is not a valid subscriber email.");
    let e = store.subscribe("a@b.com".to_string(), "".to_string()).err().unwrap();
    assert_eq!(e.status_code(), 400);
    assert_eq!(store.subscriber_count(), 0);
}

#[test]
fn register_refuses_a_taken_id_and_rolls_back_a_taken_token() {
    let mut store = SubscriptionStore::new();
    let first = NewSubscriber::parse("a@b.com".to_string(), "A".to_string()).ok().unwrap();
    let second = NewSubscriber::parse("c@d.com".to_string(), "C".to_string()).ok().unwrap();
    let t = store.register(&first, 7, "tok1".to_string(), 0).ok().unwrap();
    assert_eq!(t, "tok1");
    let e = store.register(&second, 7, "tok2".to_string(), 0).err().unwrap();
    assert_eq!(e.status_code(), 500);
    assert_eq!(e.message(), "Unexpected internal server error.");
    assert_eq!(store.subscriber_count(), 1);
    let e = store.register(&second, 8, "tok1".to_string(), 0).err().unwrap();
    match e {
        SubscribeError::UnexpectedError(chain) => assert_eq!(
            chain,
            "Failed to store the confirmation token for a new subscriber.\n\nCaused by:\n\tA database error was encountered while trying to store a subscription token\n"
        ),
        SubscribeError::ValidationError(_) => panic!("wrong variant"),
    }
    assert_eq!(store.subscriber_count(), 1);
    assert_eq!(store.status_of_email("c@d.com"), None);
    let email = SubscriberEmail::parse("a@b.com".to_string()).ok().unwrap();
    assert_eq!(store.subscriber_exists(&email), Some(7));
    assert_eq!(store.retrieve_token_from_database(7), Some("tok1".to_string()));
    assert_eq!(store.get_subscriber_id_from_token("tok1"), Some(7));
    assert_eq!(store.get_subscriber_id_from_token("tok2"), None);
}

#[test]
fn confirmation_is_one_way() {
    let mut store = SubscriptionStore::new();
    let t = store.subscribe("a@b.com".to_string(), "A".to_string()).ok().unwrap();
    let unknown = store.confirm("nosuchtoken").ok().unwrap();
    assert_eq!(unknown, ConfirmOutcome::UnknownToken);
    assert_eq!(unknown.status_code(), 401);
    let first = store.confirm(&t).ok().unwrap();
    assert_eq!(first, ConfirmOutcome::Confirmed);
    assert_eq!(first.status_code(), 200);
    assert_eq!(store.status_of_email("a@b.com"), Some(SubscriptionStatus::Confirmed));
    let again = store.confirm(&t).ok().unwrap();
    assert_eq!(again, ConfirmOutcome::AlreadyConfirmed);
    assert_eq!(again.status_code(), 400);
    assert_eq!(store.status_of_email("a@b.com"), Some(SubscriptionStatus::Confirmed));
}

#[test]
fn subscribe_then_confirm_end_to_end() {
    let mut store = SubscriptionStore::new();
    let token = store
        .subscribe("ursula_le_guin@gmail.com".to_string(), "le guin".to_string())
        .ok()
        .unwrap();
    assert_eq!(
        store.status_of_email("ursula_le_guin@gmail.com"),
        Some(SubscriptionStatus::PendingConfirmation)
    );
    let email = SubscriberEmail::parse("ursula_le_guin@gmail.com".to_string()).ok().unwrap();
    let id = store.subscriber_exists(&email).unwrap();
    assert_eq!(store.retrieve_token_from_database(id), Some(token.clone()));
    assert_eq!(store.confirm(&token).ok().unwrap().status_code(), 200);
    assert_eq!(
        store.status_of_email("ursula_le_guin@gmail.com"),
        Some(SubscriptionStatus::Confirmed)
    );
    assert_eq!(store.confirm(&token).ok().unwrap().status_code(), 400);
}

#[test]
fn confirmed_subscribers_are_listed_in_order() {
    let mut store = SubscriptionStore::new();
    let ta = store.subscribe("a@x.com".to_string(), "A".to_string()).ok().unwrap();
    let _tb = store.subscribe("b@x.com".to_string(), "B".to_string()).ok().unwrap();
    let tc = store.subscribe("c@x.com".to_string(), "C".to_string()).ok().unwrap();
    assert!(store.get_confirmed_subscribers().is_empty());
    store.confirm(&tc).ok().unwrap();
    store.confirm(&ta).ok().unwrap();
    assert_eq!(store.get_confirmed_subscribers(), vec!["a@x.com".to_string(), "c@x.com".to_string()]);
}

#[test]
fn error_chains_are_rendered_outermost_first() {
    let causes = vec!["disk full".to_string(), "io error".to_string()];
    assert_eq!(
        error_chain_fmt("top", &causes),
        "top\n\nCaused by:\n\tdisk full\nCaused by:\n\tio error\n"
    );
    assert_eq!(error_chain_fmt("alone", &Vec::new()), "alone\n\n");
}

#[test]
fn minted_tokens_survive_sanitising() {
    let t = generate_subscription_token();
    assert_eq!(parse_subscription_token(&t), t);
}

#[test]
fn new_subscriber_reports_the_first_refused_field() {
    let e = NewSubscriber::parse("bad".to_string(), "".to_string()).err().unwrap();
    assert_eq!(e, " is not a valid subscriber name.");
    let e = NewSubscriber::parse("bad".to_string(), "Ann".to_string()).err().unwrap();
    assert_eq!(e, "bad is not a valid subscriber email.");
}

#[test]
fn confirm_errors_hide_their_cause() {
    let e = ConfirmError::UnexpectedError("disk on fire".to_string());
    assert_eq!(e.status_code(), 500);
    assert_eq!(e.message(), "Unexpected internal server error.");
}
