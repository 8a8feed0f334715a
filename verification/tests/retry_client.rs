use coreos_metadata::decode::{Decoded, Format};
use coreos_metadata::error::{Cause, FetchError};
use coreos_metadata::retry::{
    Client, Fetched, Progress, Reply, Request, DEFAULT_INITIAL_BACKOFF_MS, DEFAULT_MAX_ATTEMPTS,
    DEFAULT_MAX_BACKOFF_MS,
};

fn status(code: u16, body: &str) -> Reply {
    Reply::Status { code, body: body.as_bytes().to_vec() }
}

/// Feeds the replies to the request, one per attempt, and returns what the
/// fetch ended with, the waits it asked for, and how many replies it took.
fn run(request: Request, replies: Vec<Reply>) -> (Option<Fetched>, Vec<u64>, usize) {
    let mut waits = Vec::new();
    let mut used = 0;
    let mut current = request;
    for reply in replies {
        used += 1;
        match current.receive(reply) {
            Progress::Done(r) => return (Some(r), waits, used),
            Progress::Retry { wait_ms, request } => {
                waits.push(wait_ms);
                current = request;
            }
        }
    }
    (None, waits, used)
}

fn url() -> String {
    "http://169.254.169.254/2009-04-04/meta-data/instance-id".to_string()
}

#[test]
fn new_client_has_the_defaults() {
    let client = Client::new();
    assert!(!client.return_on_404);
    assert_eq!(client.max_attempts, DEFAULT_MAX_ATTEMPTS);
    assert_eq!(client.initial_backoff_ms, DEFAULT_INITIAL_BACKOFF_MS);
    assert_eq!(client.max_backoff_ms, DEFAULT_MAX_BACKOFF_MS);
    assert_eq!(DEFAULT_MAX_ATTEMPTS, 10);
    assert_eq!(DEFAULT_INITIAL_BACKOFF_MS, 1000);
    assert_eq!(DEFAULT_MAX_BACKOFF_MS, 5000);
}

#[test]
fn builders_set_one_thing_each() {
    let client = Client::new().return_on_404(true).max_attempts(3).initial_backoff(7).max_backoff(9);
    assert_eq!(
        client,
        Client { return_on_404: true, max_attempts: 3, initial_backoff_ms: 7, max_backoff_ms: 9 }
    );
    assert_eq!(client.return_on_404(false).max_attempts, 3);
}

#[test]
fn request_keeps_its_url_and_format() {
    let request = Client::new().get(Format::Json, url());
    assert_eq!(request.url(), url());
    assert_eq!(request.format(), Format::Json);
}

#[test]
fn return_on_404_does_not_reach_earlier_requests() {
    let client = Client::new();
    let before = client.get(Format::Raw, url());
    let after = client.return_on_404(true).get(Format::Raw, url());
    assert!(matches!(before.receive(status(404, "")), Progress::Retry { .. }));
    assert_eq!(after.receive(status(404, "")), Progress::Done(Ok(None)));
}

#[test]
fn not_found_is_absence_when_return_on_404() {
    let request = Client::new().return_on_404(true).get(Format::Raw, url());
    assert_eq!(request.receive(status(404, "not here")), Progress::Done(Ok(None)));
}

#[test]
fn not_found_is_absence_even_on_the_last_attempt() {
    let request = Client::new().return_on_404(true).max_attempts(2).get(Format::Raw, url());
    let (result, waits, used) = run(request, vec![status(503, ""), status(404, "")]);
    assert_eq!(result, Some(Ok(None)));
    assert_eq!(waits, vec![1000]);
    assert_eq!(used, 2);
}

#[test]
fn not_found_exhausts_the_attempts_without_return_on_404() {
    let request = Client::new().return_on_404(false).max_attempts(3).get(Format::Raw, url());
    let replies = vec![status(404, ""), status(404, ""), status(404, ""), status(200, "late")];
    let (result, waits, used) = run(request, replies);
    assert_eq!(result, Some(Err(FetchError::TransportPermanent(404))));
    assert_eq!(waits, vec![1000, 2000]);
    assert_eq!(used, 3);
}

#[test]
fn server_errors_up_to_the_ceiling_then_success() {
    // Four attempts allowed: three failures can be recovered from.
    let request = Client::new().max_attempts(4).get(Format::Raw, url());
    let replies = vec![status(500, ""), status(503, ""), status(502, ""), status(200, " i-1234\n")];
    let (result, waits, used) = run(request, replies);
    assert_eq!(result, Some(Ok(Some(Decoded::Text("i-1234".to_string())))));
    assert_eq!(waits, vec![1000, 2000, 4000]);
    assert_eq!(used, 4);
}

#[test]
fn server_errors_beyond_the_ceiling_fail_with_the_last_one() {
    let request = Client::new().max_attempts(4).get(Format::Raw, url());
    let replies = vec![
        status(500, ""),
        status(503, ""),
        status(502, ""),
        status(504, ""),
        status(200, "too late"),
    ];
    let (result, waits, used) = run(request, replies);
    assert_eq!(result, Some(Err(FetchError::TransportTransient(Cause::Status(504)))));
    assert_eq!(waits, vec![1000, 2000, 4000]);
    assert_eq!(used, 4);
}

#[test]
fn default_client_gives_up_after_ten_attempts() {
    let request = Client::new().get(Format::Raw, url());
    let replies: Vec<Reply> = (0..12).map(|_| Reply::Unreachable).collect();
    let (result, waits, used) = run(request, replies);
    assert_eq!(result, Some(Err(FetchError::TransportTransient(Cause::Unreachable))));
    assert_eq!(waits, vec![1000, 2000, 4000, 5000, 5000, 5000, 5000, 5000, 5000]);
    assert_eq!(used, 10);
}

#[test]
fn fetch_stays_open_while_replies_are_missing() {
    let request = Client::new().get(Format::Raw, url());
    let (result, waits, used) = run(request, vec![status(500, ""), Reply::Unreachable]);
    assert_eq!(result, None);
    assert_eq!(waits, vec![1000, 2000]);
    assert_eq!(used, 2);
}

#[test]
fn zero_or_one_attempt_means_no_retry() {
    for n in [0u32, 1] {
        let request = Client::new().max_attempts(n).get(Format::Raw, url());
        assert_eq!(
            request.receive(status(500, "")),
            Progress::Done(Err(FetchError::TransportTransient(Cause::Status(500))))
        );
    }
}

#[test]
fn backoff_doubles_up_to_the_cap() {
    let client = Client::new().max_attempts(6).initial_backoff(300).max_backoff(1000);
    let replies: Vec<Reply> = (0..6).map(|_| status(500, "")).collect();
    let (result, waits, _) = run(client.get(Format::Raw, url()), replies);
    assert_eq!(result, Some(Err(FetchError::TransportTransient(Cause::Status(500)))));
    assert_eq!(waits, vec![300, 600, 1000, 1000, 1000]);
}

#[test]
fn first_wait_is_the_initial_one_even_above_the_cap() {
    let client = Client::new().max_attempts(3).initial_backoff(9000).max_backoff(1000);
    let replies: Vec<Reply> = (0..3).map(|_| status(500, "")).collect();
    let (_, waits, _) = run(client.get(Format::Raw, url()), replies);
    assert_eq!(waits, vec![9000, 1000]);
}

#[test]
fn backoff_near_the_largest_number_does_not_overflow() {
    let client = Client::new().max_attempts(3).initial_backoff(u64::MAX - 1).max_backoff(u64::MAX);
    let replies: Vec<Reply> = (0..3).map(|_| status(500, "")).collect();
    let (_, waits, _) = run(client.get(Format::Raw, url()), replies);
    assert_eq!(waits, vec![u64::MAX - 1, u64::MAX]);
}

#[test]
fn client_errors_other_than_404_end_the_fetch_at_once() {
    for code in [400u16, 401, 403, 410, 499] {
        let request = Client::new().return_on_404(true).get(Format::Raw, url());
        assert_eq!(
            request.receive(status(code, "")),
            Progress::Done(Err(FetchError::TransportPermanent(code)))
        );
    }
}

#[test]
fn statuses_that_are_neither_success_nor_client_error_are_retried() {
    for code in [100u16, 199, 300, 301, 399, 500, 599, 600] {
        let request = Client::new().get(Format::Raw, url());
        match request.receive(status(code, "")) {
            Progress::Retry { wait_ms, request } => {
                assert_eq!(wait_ms, 1000);
                assert_eq!(request.url(), url());
            }
            other => panic!("status {} gave {:?}", code, other),
        }
    }
}

#[test]
fn every_2xx_is_a_success() {
    for code in [200u16, 201, 204, 299] {
        let request = Client::new().get(Format::Raw, url());
        assert_eq!(
            request.receive(status(code, "v")),
            Progress::Done(Ok(Some(Decoded::Text("v".to_string()))))
        );
    }
}

#[test]
fn malformed_json_is_a_decode_failure_without_retry() {
    let request = Client::new().max_attempts(5).get(Format::Json, url());
    assert_eq!(
        request.receive(status(200, "{\"region\": ")),
        Progress::Done(Err(FetchError::DecodeFailure))
    );
}

#[test]
fn json_body_is_parsed() {
    let request = Client::new().get(Format::Json, url());
    let expected: serde_json::Value = serde_json::from_str("{\"region\":\"us-east-1\"}").unwrap();
    assert_eq!(
        request.receive(status(200, " {\"region\" : \"us-east-1\"} ")),
        Progress::Done(Ok(Some(Decoded::Json(expected))))
    );
}

#[test]
fn raw_body_that_is_no_utf8_is_a_decode_failure_without_retry() {
    let request = Client::new().max_attempts(5).get(Format::Raw, url());
    assert_eq!(
        request.receive(Reply::Status { code: 200, body: vec![0x66, 0xff, 0x6f] }),
        Progress::Done(Err(FetchError::DecodeFailure))
    );
}

#[test]
fn xml_body_is_handed_on_as_it_came() {
    let request = Client::new().get(Format::Xml, url());
    let body = b" <a><b>1</b></a>\n".to_vec();
    assert_eq!(
        request.receive(Reply::Status { code: 200, body: body.clone() }),
        Progress::Done(Ok(Some(Decoded::Xml(body))))
    );
}
