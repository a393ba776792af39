use jev_pilot::client::http::{detail, is_busy, ApiError, Next, SystemOne, TransportError, ATTEMPTS, DETAIL_LIMIT};
use jev_pilot::client::ENDPOINT;
use jev_pilot::credential::ApiKey;

fn client() -> SystemOne {
    SystemOne::new(ApiKey::new("sk-test").expect("a key"))
}

#[test]
fn a_client_calls_the_default_endpoint_with_a_bearer_key() {
    let c = client();
    assert_eq!(c.endpoint_url(), ENDPOINT);
    assert_eq!(c.authorization(), "Bearer sk-test");
}

#[test]
fn the_endpoint_can_be_moved() {
    let c = client().at("http://127.0.0.1:9999/v1".to_owned());
    assert_eq!(c.endpoint_url(), "http://127.0.0.1:9999/v1");
}

#[test]
fn busy_statuses_are_told_apart_from_refusals() {
    assert!(is_busy(429));
    assert!(is_busy(503));
    assert!(is_busy(529));
    assert!(!is_busy(400));
    assert!(!is_busy(401));
    assert!(!is_busy(500));
}

#[test]
fn a_busy_service_is_waited_out_with_doubling_waits() {
    let c = client();
    assert_eq!(c.after_attempt(1, Some(429)), Next::Retry(500));
    assert_eq!(c.after_attempt(2, Some(503)), Next::Retry(1000));
    assert_eq!(c.after_attempt(3, Some(529)), Next::Retry(2000));
    assert_eq!(c.after_attempt(ATTEMPTS, Some(429)), Next::GiveUp);
    assert_eq!(c.busy_error(), ApiError::Busy { attempts: ATTEMPTS });
}

#[test]
fn anything_but_busy_is_final() {
    let c = client();
    assert_eq!(c.after_attempt(1, None), Next::Done);
    assert_eq!(c.after_attempt(1, Some(400)), Next::Done);
    assert_eq!(c.after_attempt(2, Some(500)), Next::Done);
}

#[test]
fn a_refusals_body_is_trimmed_and_cut_short() {
    assert_eq!(detail("  bad request \n"), "bad request");
    let long = "x".repeat(DETAIL_LIMIT + 50);
    assert_eq!(detail(&long).chars().count(), DETAIL_LIMIT);
    assert_eq!(detail(""), "");
}

#[test]
fn each_failure_says_what_went_wrong() {
    assert_eq!(
        ApiError::Transport(TransportError("connection refused".to_owned())).message(),
        "transport error: connection refused"
    );
    assert_eq!(
        ApiError::Status { code: 401, detail: String::new() }.message(),
        "rejected (401): the API key is missing or not valid"
    );
    assert_eq!(ApiError::Status { code: 500, detail: String::new() }.message(), "rejected (500)");
    assert_eq!(
        ApiError::Status { code: 422, detail: "no goal".to_owned() }.message(),
        "rejected (422): no goal"
    );
    assert_eq!(ApiError::Busy { attempts: 4 }.message(), "the service was busy on all 4 attempts");
}
