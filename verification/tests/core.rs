use std::time::Duration;

use async_duplex_channel::client::registration_outcome;
use async_duplex_channel::{
    next_concurrency, BatchOutcome, Client, ConcurrencyStrategy, DynamicConcurrency, Error,
    Outcome,
};

#[test]
fn registered_requests_get_distinct_keys_and_their_own_tokens() {
    let mut client = Client::new(Duration::from_secs(1));
    let a = client.register(10).unwrap();
    let b = client.register(20).unwrap();
    let c = client.register(30).unwrap();
    assert!(a != b && b != c && a != c);
    assert_eq!(client.route_response(b), Some(20));
    assert_eq!(client.route_response(a), Some(10));
    assert_eq!(client.route_response(c), Some(30));
}

#[test]
fn a_response_is_routed_at_most_once() {
    let mut client = Client::new(Duration::from_secs(1));
    let id = client.register(5).unwrap();
    assert_eq!(client.route_response(id), Some(5));
    assert_eq!(client.route_response(id), None);
}

#[test]
fn routing_one_response_leaves_the_others_pending() {
    let mut client = Client::new(Duration::from_secs(1));
    let a = client.register(1).unwrap();
    let b = client.register(2).unwrap();
    assert_eq!(client.route_response(a), Some(1));
    assert_eq!(client.route_response(b), Some(2));
}

#[test]
fn a_timed_out_request_drops_its_late_response_only() {
    let mut client = Client::new(Duration::from_secs(1));
    let a = client.register(1).unwrap();
    let b = client.register(2).unwrap();
    assert_eq!(
        client.finish_request::<u8>(a, Outcome::TimedOut),
        Err(Error::Timeout)
    );
    assert_eq!(client.route_response(a), None);
    assert_eq!(client.route_response(b), Some(2));
}

#[test]
fn send_and_receive_failures_become_their_errors() {
    let mut client = Client::new(Duration::from_secs(1));
    let id = client.register(3).unwrap();
    assert_eq!(
        client.finish_request::<u8>(id, Outcome::SendFailed("send failed because receiver is gone".to_string())),
        Err(Error::SendFailed("send failed because receiver is gone".to_string()))
    );
    // A failure to send leaves the request pending, as the table had it.
    assert_eq!(
        client.finish_request::<u8>(id, Outcome::Canceled("oneshot canceled".to_string())),
        Err(Error::ReceiveFailed("oneshot canceled".to_string()))
    );
    assert_eq!(client.route_response(id), Some(3));
}

#[test]
fn a_batch_reports_its_first_failure() {
    let mut client = Client::new(Duration::from_secs(1));
    let ids = client.register_batch(&vec![7, 8, 9]).unwrap();
    let result = client.finish_batch(
        &ids,
        BatchOutcome::Completed(vec![
            Ok(1u8),
            Err("first".to_string()),
            Err("second".to_string()),
        ]),
    );
    assert_eq!(result, Err(Error::ReceiveFailed("first".to_string())));
}

#[test]
fn a_batch_timeout_drops_every_request_of_the_batch() {
    let mut client = Client::new(Duration::from_secs(1));
    let other = client.register(100).unwrap();
    let ids = client.register_batch(&vec![7, 8, 9]).unwrap();
    assert_eq!(ids.len(), 3);
    assert_eq!(
        client.finish_batch::<u8>(&ids, BatchOutcome::TimedOut),
        Err(Error::Timeout)
    );
    for id in ids.iter() {
        assert_eq!(client.route_response(*id), None);
    }
    assert_eq!(client.route_response(other), Some(100));
}

#[test]
fn an_empty_batch_returns_no_responses() {
    let mut client = Client::new(Duration::from_secs(1));
    let ids = client.register_batch(&vec![]).unwrap();
    assert!(ids.is_empty());
    let responses = client
        .finish_batch::<u8>(&ids, BatchOutcome::Completed(vec![]))
        .unwrap();
    assert!(responses.is_empty());
}

#[test]
fn fast_responses_raise_the_level_up_to_the_maximum() {
    assert_eq!(next_concurrency(4, 16, 5_000_000), 5);
    assert_eq!(next_concurrency(100, 200, 0), 125);
    assert_eq!(next_concurrency(15, 16, 9_999_999), 16);
    assert_eq!(next_concurrency(16, 16, 1), 16);
    assert_eq!(next_concurrency(20, 16, 1), 20);
    assert_eq!(next_concurrency(0, 16, 1), 1);
    assert_eq!(next_concurrency(usize::MAX - 1, usize::MAX, 1), usize::MAX);
}

#[test]
fn medium_responses_lower_the_level_by_one() {
    assert_eq!(next_concurrency(4, 16, 10_000_000), 3);
    assert_eq!(next_concurrency(2, 16, 99_999_999), 1);
    assert_eq!(next_concurrency(1, 16, 50_000_000), 1);
    assert_eq!(next_concurrency(0, 16, 50_000_000), 0);
}

#[test]
fn slow_responses_lower_the_level_but_not_below_one() {
    assert_eq!(next_concurrency(16, 16, 100_000_000), 12);
    assert_eq!(next_concurrency(40, 64, 100_000_000), 30);
    assert_eq!(next_concurrency(3, 16, 200_000_000), 1);
    assert_eq!(next_concurrency(2, 16, 200_000_000), 1);
    assert_eq!(next_concurrency(1, 16, 200_000_000), 1);
    assert_eq!(next_concurrency(0, 16, u128::MAX), 1);
}

#[test]
fn recorded_responses_are_measured_by_their_duration() {
    let mut state = DynamicConcurrency::new(8, 32);
    state.record_response(Duration::from_millis(5));
    assert_eq!(state.current(), 10);
    state.record_response(Duration::from_millis(50));
    assert_eq!(state.current(), 9);
    state.record_response(Duration::from_secs(1));
    assert_eq!(state.current(), 7);
    state.record_response(Duration::from_secs(1));
    assert_eq!(state.current(), 5);
    state.record_response(Duration::from_secs(1));
    assert_eq!(state.current(), 3);
    state.record_response(Duration::from_secs(1));
    assert_eq!(state.current(), 1);
    state.record_response(Duration::from_secs(1));
    assert_eq!(state.current(), 1);
    assert_eq!(state.max(), 32);
}

#[test]
fn the_dynamic_level_starts_between_one_and_the_maximum() {
    let state = DynamicConcurrency::new(20, 4);
    assert_eq!((state.current(), state.max()), (4, 4));
    let state = DynamicConcurrency::new(0, 8);
    assert_eq!((state.current(), state.max()), (1, 8));
    let state = DynamicConcurrency::new(3, 0);
    assert_eq!((state.current(), state.max()), (1, 1));
    assert_eq!(ConcurrencyStrategy::Dynamic(20, 4).initial_concurrency(), 4);
}

#[test]
fn the_dynamic_strategy_admits_requests_below_its_level() {
    let mut state = DynamicConcurrency::new(2, 3);
    assert!(state.admits(0));
    assert!(state.admits(1));
    assert!(!state.admits(2));
    state.record_response(Duration::from_millis(1));
    assert_eq!(state.current(), 3);
    assert!(state.admits(2));
    assert!(!state.admits(3));
    state.record_response(Duration::from_millis(1));
    assert_eq!(state.current(), 3);
    assert!(!state.admits(3));
}

#[test]
fn default_strategy_is_fixed_sixteen() {
    let strategy = ConcurrencyStrategy::default_strategy();
    assert!(matches!(strategy, ConcurrencyStrategy::Fixed(16)));
    assert_eq!(strategy.initial_concurrency(), 16);
}

#[test]
fn error_messages_match_their_display_text() {
    assert_eq!(Error::SendFailed("x".into()).message(), "Send failed: x");
    assert_eq!(Error::ReceiveFailed("y".into()).message(), "Receive failed: y");
    assert_eq!(Error::Timeout.message(), "Response timeout");
    assert_eq!(
        Error::SendResponseFailed("z".into()).message(),
        "Send response failed: z"
    );
    assert_eq!(
        Error::InternalError("Failed to insert into pending slab".into()).message(),
        "Internal error: Failed to insert into pending slab"
    );
}

#[test]
fn a_full_table_is_an_internal_error() {
    assert_eq!(registration_outcome(Some(42)), Ok(42));
    let failure = registration_outcome(None).unwrap_err();
    assert_eq!(
        failure,
        Error::InternalError("Failed to insert into pending slab".to_string())
    );
    assert_eq!(
        failure.message(),
        "Internal error: Failed to insert into pending slab"
    );
}

#[test]
fn a_response_for_a_vacant_key_changes_nothing() {
    let mut client = Client::new(Duration::from_secs(1));
    let a = client.register(1).unwrap();
    // A key that names a slot the table never handed out.
    assert_eq!(client.route_response(a + 1), None);
    assert_eq!(client.route_response(usize::MAX), None);
    let b = client.register(2).unwrap();
    let c = client.register(3).unwrap();
    assert!(a != b && b != c && a != c);
    assert_eq!(client.route_response(c), Some(3));
    assert_eq!(client.route_response(b), Some(2));
    assert_eq!(client.route_response(a), Some(1));
}

#[test]
fn a_stale_key_after_routing_changes_nothing() {
    let mut client = Client::new(Duration::from_secs(1));
    let a = client.register(1).unwrap();
    assert_eq!(client.route_response(a), Some(1));
    assert_eq!(client.route_response(a), None);
    assert_eq!(client.finish_request::<u8>(a, Outcome::TimedOut), Err(Error::Timeout));
    let b = client.register(2).unwrap();
    let c = client.register(3).unwrap();
    assert!(b != c && a != b && a != c);
    assert_eq!(client.route_response(b), Some(2));
    assert_eq!(client.route_response(c), Some(3));
}

#[test]
fn a_failed_send_in_a_batch_withdraws_the_batch() {
    let mut client = Client::new(Duration::from_secs(1));
    let other = client.register(100).unwrap();
    let ids = client.register_batch(&vec![1, 2]).unwrap();
    assert_eq!(
        client.finish_batch::<u8>(&ids, BatchOutcome::SendFailed("channel closed".to_string())),
        Err(Error::SendFailed("channel closed".to_string()))
    );
    assert_eq!(client.route_response(ids[0]), None);
    assert_eq!(client.route_response(ids[1]), None);
    assert_eq!(client.route_response(other), Some(100));
}

#[test]
fn interleaved_requests_each_get_their_own_response() {
    let mut client = Client::new(Duration::from_secs(1));
    let a = client.register(1).unwrap();
    let b = client.register(2).unwrap();
    assert_eq!(client.route_response(b), Some(2));
    let c = client.register(3).unwrap();
    assert_eq!(client.finish_request::<u8>(a, Outcome::TimedOut), Err(Error::Timeout));
    let batch = client.register_batch(&vec![4, 5]).unwrap();
    assert_eq!(client.route_response(batch[1]), Some(5));
    assert_eq!(client.route_response(a), None);
    assert_eq!(client.route_response(c), Some(3));
    assert_eq!(client.route_response(batch[0]), Some(4));
}
