use std::time::Duration;

use async_duplex_channel::{BatchOutcome, Client, ConcurrencyStrategy, Error, Outcome};

/// The decisions behind sending a single request and receiving a response:
/// the client registers the request, the echoed response is routed back to
/// it, and the request ends with that response.
#[test]
fn test_single_request() {
    let mut client = Client::new(Duration::from_secs(2));
    assert_eq!(client.default_timeout(), Duration::from_secs(2));
    let id = client.register(0).unwrap();
    // The echo responder answers with the request's key; the dispatcher routes it.
    assert_eq!(client.route_response(id), Some(0));
    let response = client
        .finish_request(id, Outcome::Responded("Hello, world!".to_string()))
        .unwrap();
    assert_eq!(response, "Hello, world!");
}

/// The decisions behind a batch of requests: both are registered, each echoed
/// response is routed to its own request, and the batch ends with the
/// responses in order.
#[test]
fn test_batch_requests() {
    let mut client = Client::new(Duration::from_secs(2));
    let ids = client.register_batch(&vec![0, 1]).unwrap();
    assert_eq!(ids.len(), 2);
    // `request_batch` waits for the whole batch with the default timeout.
    assert_eq!(client.default_timeout(), Duration::from_secs(2));
    assert_eq!(client.route_response(ids[0]), Some(0));
    assert_eq!(client.route_response(ids[1]), Some(1));
    let responses = client
        .finish_batch(
            &ids,
            BatchOutcome::Completed(vec![
                Ok("Request 1".to_string()),
                Ok("Request 2".to_string()),
            ]),
        )
        .unwrap();
    assert_eq!(
        responses,
        vec!["Request 1".to_string(), "Request 2".to_string()]
    );
}

/// The decisions behind processing requests with fixed concurrency: the
/// responder handles 16 at once and does not adjust, and a request ends
/// with its echoed response.
#[test]
fn test_fixed_concurrency() {
    let strategy = ConcurrencyStrategy::Fixed(16);
    assert_eq!(strategy.initial_concurrency(), 16);
    assert!(strategy.adjuster().is_none());

    let mut client = Client::new(Duration::from_secs(2));
    let id = client.register(0).unwrap();
    assert_eq!(client.route_response(id), Some(0));
    let response = client
        .finish_request(id, Outcome::Responded("Hello, world!".to_string()))
        .unwrap();
    assert_eq!(response, "Hello, world!");
}

/// The decisions behind processing requests with dynamic concurrency: the
/// responder starts at level 4 of at most 16 and raises it after a fast
/// response, and a request ends with its echoed response.
#[test]
fn test_dynamic_concurrency() {
    let strategy = ConcurrencyStrategy::Dynamic(4, 16);
    assert_eq!(strategy.initial_concurrency(), 4);
    let mut adjuster = strategy.adjuster().unwrap();
    assert_eq!((adjuster.current(), adjuster.max()), (4, 16));
    // An echo handler answers at once: a fast response raises the level.
    adjuster.record_response(Duration::from_micros(50));
    assert_eq!(adjuster.current(), 5);

    let mut client = Client::new(Duration::from_secs(2));
    let id = client.register(0).unwrap();
    assert_eq!(client.route_response(id), Some(0));
    let response = client
        .finish_request(id, Outcome::Responded("Hello, world!".to_string()))
        .unwrap();
    assert_eq!(response, "Hello, world!");
}

/// The decisions behind a single request with a custom timeout that the
/// response beats.
#[test]
fn test_single_request_timeout() {
    let mut client = Client::new(Duration::from_secs(2));
    let id = client.register(0).unwrap();
    // The response arrives before the custom timeout of one second.
    assert_eq!(client.route_response(id), Some(0));
    let response = client
        .finish_request(id, Outcome::Responded("Hello, world!".to_string()))
        .unwrap();
    assert_eq!(response, "Hello, world!");
}

/// The decisions behind a batch of requests with a custom timeout that the
/// responses beat.
#[test]
fn test_batch_requests_timeout() {
    let mut client = Client::new(Duration::from_secs(2));
    let ids = client.register_batch(&vec![0, 1]).unwrap();
    assert_eq!(client.route_response(ids[0]), Some(0));
    assert_eq!(client.route_response(ids[1]), Some(1));
    let responses = client
        .finish_batch(
            &ids,
            BatchOutcome::Completed(vec![
                Ok("Request 1".to_string()),
                Ok("Request 2".to_string()),
            ]),
        )
        .unwrap();
    assert_eq!(
        responses,
        vec!["Request 1".to_string(), "Request 2".to_string()]
    );
}

/// The decisions behind a request whose handler answers with an error: the
/// error is the response, and reaches the client as it was sent.
#[test]
fn test_request_failure() {
    let mut client = Client::new(Duration::from_secs(2));
    let id = client.register(0).unwrap();
    assert_eq!(client.route_response(id), Some(0));
    // The handler answers "fail" with an error, which reaches the client as the response.
    let handler_answer: Result<String, Error> =
        Err(Error::InternalError("Request failed".into()));
    let result = client
        .finish_request(id, Outcome::Responded(handler_answer))
        .unwrap();
    assert!(matches!(result, Err(Error::InternalError(_))));
}

/// The decisions behind a request whose timeout elapses before the response:
/// it ends with a timeout, and its late response reaches no one.
#[test]
fn test_request_timeout() {
    let mut client = Client::new(Duration::from_secs(2));
    let id = client.register(0).unwrap();
    // The handler sleeps for three seconds; the timeout of one second elapses first.
    let result = client.finish_request::<String>(id, Outcome::TimedOut);
    assert!(matches!(result, Err(Error::Timeout)));
    // The late response finds no waiting request.
    assert_eq!(client.route_response(id), None);
}
