use myweb::auth::{AuthError, AuthHeaderError};
use myweb::newsletter::{confirmation_email, ApplicationBaseUrl, PublishError, PublishRun, RunStatus};

fn emails(list: &[&str]) -> Vec<String> {
    list.iter().map(|s| s.to_string()).collect()
}

fn drive(run: &mut PublishRun, outcomes: &[bool]) -> Vec<String> {
    let mut attempted = Vec::new();
    let mut k = 0;
    while let Some(r) = run.next_recipient() {
        attempted.push(r);
        run.record_delivery(outcomes[k]);
        k += 1;
    }
    attempted
}

#[test]
fn all_confirmed_subscribers_get_one_email() {
    let list = emails(&["a@x.com", "b@x.com", "c@x.com"]);
    let mut run = PublishRun::new(&list);
    let attempted = drive(&mut run, &[true, true, true]);
    assert_eq!(attempted, list);
    assert_eq!(run.sent(), 3);
    assert_eq!(run.status(), RunStatus::Completed);
}

#[test]
fn invalid_stored_addresses_are_skipped() {
    let list = emails(&["a@x.com", "broken", "c@x.com"]);
    let mut run = PublishRun::new(&list);
    assert_eq!(run.skipped(), 1);
    let attempted = drive(&mut run, &[true, true]);
    assert_eq!(attempted, emails(&["a@x.com", "c@x.com"]));
    assert_eq!(run.sent(), 2);
    assert_eq!(run.status(), RunStatus::Completed);
}

#[test]
fn first_gateway_failure_aborts_the_run() {
    let list = emails(&["a@x.com", "b@x.com", "c@x.com"]);
    let mut run = PublishRun::new(&list);
    let attempted = drive(&mut run, &[true, false, true]);
    assert_eq!(attempted, emails(&["a@x.com", "b@x.com"]));
    assert_eq!(run.sent(), 1);
    assert_eq!(run.status(), RunStatus::Aborted);
    run.record_delivery(true);
    assert_eq!(run.sent(), 1);
}

#[test]
fn empty_run_is_complete() {
    let run = PublishRun::new(&Vec::new());
    assert!(run.next_recipient().is_none());
    assert_eq!(run.status(), RunStatus::Completed);
}

#[test]
fn confirmation_email_carries_the_link() {
    let e = confirmation_email(&ApplicationBaseUrl("http://127.0.0.1".to_string()), "abc");
    assert_eq!(e.subject, "Welcome!");
    assert_eq!(
        e.text_body,
        "Welcome to our newsletter!\nVisit http://127.0.0.1/subscriptions/confirm?subscription_token=abc to confirm your subscription."
    );
    assert_eq!(
        e.html_body,
        "Welcome to our newsletter!<br />Click <a href=\"http://127.0.0.1/subscriptions/confirm?subscription_token=abc\">here</a> to confirm your subscription."
    );
}

#[test]
fn publish_errors_map_to_status_codes() {
    let e = PublishError::from_auth_error(AuthError::InvalidCredentials);
    assert_eq!(e.status_code(), 401);
    assert_eq!(e.www_authenticate(), Some("Basic realm=\"publish\"".to_string()));
    let e = PublishError::from_auth_error(AuthError::UnexpectedError);
    assert_eq!(e.status_code(), 500);
    assert_eq!(e.www_authenticate(), None);
    let e = PublishError::from_header_error(AuthHeaderError::Missing);
    assert_eq!(e.status_code(), 401);
    assert_eq!(e.message(), "Authorization failed.");
    let e = PublishError::UnexpectedError("db down".to_string());
    assert_eq!(e.message(), "Unexpected internal server error.");
}
