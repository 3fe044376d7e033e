//! Properties that hold across the client's operations on its table of
//! pending requests.
use vstd::prelude::*;

use crate::client::{
    collect_spec, finish_batch_spec, finish_spec, lemma_with_entries_keys, route_spec,
    with_entries, BatchOutcome, Outcome,
};

verus! {

/// A response carrying the key of a registered request reaches that
/// request's waiter, and the request is no longer pending afterwards.
pub proof fn lemma_response_reaches_its_request(table: Map<usize, u64>, id: usize, token: u64)
    requires
        !table.contains_key(id),
    ensures
        route_spec(table.insert(id, token), id) == (table, Some(token)),
{
    assert(table.insert(id, token).remove(id) =~= table);
}

/// A request is answered at most once: a second response for the same key reaches no one.
pub proof fn lemma_response_routed_at_most_once(table: Map<usize, u64>, id: usize)
    ensures
        route_spec(route_spec(table, id).0, id).1 is None,
{
}

/// Routing a response for one key leaves every other pending request as it was.
pub proof fn lemma_routing_leaves_other_requests(table: Map<usize, u64>, id: usize, other: usize)
    requires
        other != id,
    ensures
        route_spec(table, id).0.contains_key(other) == table.contains_key(other),
        table.contains_key(other) ==> route_spec(table, id).0[other] == table[other],
{
}

/// A request that timed out is no longer pending: a response that comes
/// for it afterwards reaches no one.
pub proof fn lemma_late_response_is_dropped<Resp>(table: Map<usize, u64>, id: usize)
    ensures
        route_spec(finish_spec(table, id, Outcome::<Resp>::TimedOut).0, id).1 is None,
{
}

/// Every request of a registered batch receives the response carrying its
/// own key: the `i`-th response reaches the `i`-th waiter.
pub proof fn lemma_batch_responses_reach_their_waiters(
    table: Map<usize, u64>,
    ids: Seq<usize>,
    tokens: Seq<u64>,
    i: int,
)
    requires
        ids.len() == tokens.len(),
        0 <= i < ids.len(),
        forall|j: int, k: int| 0 <= j < k < ids.len() ==> #[trigger] ids[j] != #[trigger] ids[k],
    ensures
        route_spec(with_entries(table, ids, tokens), ids[i]).1 == Some(tokens[i]),
    decreases ids.len(),
{
    if i < ids.len() - 1 {
        let shorter = ids.drop_last();
        assert(shorter[i] == ids[i]);
        assert forall|j: int, k: int| 0 <= j < k < shorter.len() implies shorter[j] != shorter[k] by {
            assert(ids[j] != ids[k]);
        }
        lemma_batch_responses_reach_their_waiters(table, shorter, tokens.drop_last(), i);
        lemma_with_entries_tokens_prefix(table, shorter, tokens);
        assert(ids.last() != ids[i]);
    }
}

/// Entries registered from a longer token sequence agree with those from its prefix.
proof fn lemma_with_entries_tokens_prefix(table: Map<usize, u64>, ids: Seq<usize>, tokens: Seq<u64>)
    requires
        ids.len() < tokens.len(),
    ensures
        with_entries(table, ids, tokens) == with_entries(table, ids, tokens.drop_last()),
    decreases ids.len(),
{
    if ids.len() > 0 {
        lemma_with_entries_tokens_prefix(table, ids.drop_last(), tokens);
    }
}

/// When a batch times out, none of its requests is pending any more, so a
/// late response for any of them reaches no one; other requests stay pending.
pub proof fn lemma_batch_timeout_drops_late_responses<Resp>(
    table: Map<usize, u64>,
    ids: Seq<usize>,
    key: usize,
)
    ensures
        ids.contains(key) ==> route_spec(
            finish_batch_spec(table, ids, BatchOutcome::<Resp>::TimedOut).0,
            key,
        ).1 is None,
        !ids.contains(key) ==> route_spec(
            finish_batch_spec(table, ids, BatchOutcome::<Resp>::TimedOut).0,
            key,
        ).1 == route_spec(table, key).1,
{
}

/// When every waiter of a batch received its response, the batch returns the
/// responses in the order of its requests.
pub proof fn lemma_batch_keeps_request_order<Resp>(results: Seq<Result<Resp, String>>)
    requires
        forall|i: int| 0 <= i < results.len() ==> (#[trigger] results[i]) is Ok,
    ensures
        collect_spec(results) matches Ok(responses) && responses.len() == results.len() && (
        forall|i: int| 0 <= i < results.len() ==> #[trigger] responses[i] == results[i]->Ok_0),
{
    assert(!(exists|i: int| 0 <= i < results.len() && results[i] is Err));
}

/// A batch in which some waiter failed reports the failure of the first such waiter.
pub proof fn lemma_batch_reports_first_failure<Resp>(results: Seq<Result<Resp, String>>, i: int)
    requires
        0 <= i < results.len(),
        results[i] is Err,
        forall|j: int| 0 <= j < i ==> (#[trigger] results[j]) is Ok,
    ensures
        collect_spec(results) == Err::<Seq<Resp>, crate::error::Error>(
            crate::error::Error::ReceiveFailed(results[i]->Err_0),
        ),
{
    let f = choose|f: int| crate::client::is_first_failure(results, f);
    assert(crate::client::is_first_failure(results, i));
    assert(f == i) by {
        if f < i {
            assert(results[f] is Ok);
        }
        if i < f {
            assert(results[i] is Ok);
        }
    }
}

/// The table after responses for `keys` are routed, one after another.
pub open spec fn route_all(table: Map<usize, u64>, keys: Seq<usize>) -> Map<usize, u64>
    decreases keys.len(),
{
    if keys.len() == 0 {
        table
    } else {
        route_spec(route_all(table, keys.drop_last()), keys.last()).0
    }
}

/// Routing responses for `keys` takes exactly those keys out of the table.
pub proof fn lemma_route_all_removes_keys(table: Map<usize, u64>, keys: Seq<usize>)
    ensures
        route_all(table, keys) == table.remove_keys(keys.to_set()),
    decreases keys.len(),
{
    if keys.len() == 0 {
        assert(table.remove_keys(keys.to_set()) =~= table);
    } else {
        let shorter = keys.drop_last();
        lemma_route_all_removes_keys(table, shorter);
        assert forall|x: usize| keys.contains(x) <==> (shorter.contains(x) || x == keys.last()) by {
            if keys.contains(x) {
                let j = choose|j: int| 0 <= j < keys.len() && keys[j] == x;
                if j < keys.len() - 1 {
                    assert(shorter[j] == x);
                }
            }
            if shorter.contains(x) {
                let j = choose|j: int| 0 <= j < shorter.len() && shorter[j] == x;
                assert(keys[j] == x);
            }
        }
        assert(table.remove_keys(shorter.to_set()).remove(keys.last()) =~= table.remove_keys(
            keys.to_set(),
        ));
    }
}

/// Registering a batch of fresh keys and then taking all of them out again
/// gives back the table that was there before the batch.
pub proof fn lemma_batch_entries_removed(
    table: Map<usize, u64>,
    ids: Seq<usize>,
    tokens: Seq<u64>,
    keys: Set<usize>,
)
    requires
        ids.len() <= tokens.len(),
        forall|i: int| 0 <= i < ids.len() ==> !table.contains_key(#[trigger] ids[i]),
        forall|x: usize| keys.contains(x) <==> ids.contains(x),
    ensures
        with_entries(table, ids, tokens).remove_keys(keys) == table,
{
    let m = with_entries(table, ids, tokens);
    assert forall|x: usize| #[trigger] m.remove_keys(keys).contains_key(x) <==> table.contains_key(x) by {
        lemma_with_entries_keys(table, ids, tokens, x);
        if ids.contains(x) {
            let j = choose|j: int| 0 <= j < ids.len() && ids[j] == x;
            assert(!table.contains_key(ids[j]));
        }
    }
    assert forall|x: usize| #[trigger] table.contains_key(x) implies m.remove_keys(keys)[x] == table[x] by {
        if ids.contains(x) {
            let j = choose|j: int| 0 <= j < ids.len() && ids[j] == x;
            assert(!table.contains_key(ids[j]));
        }
        assert(!keys.contains(x));
        lemma_with_entries_keys(table, ids, tokens, x);
        lemma_with_entries_keeps(table, ids, tokens, x);
    }
    assert(m.remove_keys(keys) =~= table);
}

/// A key that was in the table before a batch was registered, and is not one
/// of the batch's keys, keeps its token.
proof fn lemma_with_entries_keeps(table: Map<usize, u64>, ids: Seq<usize>, tokens: Seq<u64>, key: usize)
    requires
        table.contains_key(key),
        !ids.contains(key),
    ensures
        with_entries(table, ids, tokens)[key] == table[key],
    decreases ids.len(),
{
    if ids.len() > 0 {
        let shorter = ids.drop_last();
        if shorter.contains(key) {
            let j = choose|j: int| 0 <= j < shorter.len() && shorter[j] == key;
            assert(ids[j] == key);
        }
        lemma_with_entries_keeps(table, shorter, tokens, key);
        assert(ids[ids.len() - 1] != key);
    }
}

/// A batch that ends, whether every response came or it timed out or a
/// request could not be sent, leaves the table of pending requests as the
/// batch found it: every key taken for the batch was answered or withdrawn.
/// `routed` are the keys of the batch whose responses were routed before the
/// batch ended; when the batch completed, they are all of its keys.
pub proof fn lemma_batch_leaves_table_as_found<Resp>(
    table: Map<usize, u64>,
    ids: Seq<usize>,
    tokens: Seq<u64>,
    routed: Seq<usize>,
    outcome: BatchOutcome<Resp>,
)
    requires
        ids.len() == tokens.len(),
        forall|i: int| 0 <= i < ids.len() ==> !table.contains_key(#[trigger] ids[i]),
        forall|i: int| 0 <= i < routed.len() ==> ids.contains(#[trigger] routed[i]),
        outcome is Completed ==> forall|i: int| 0 <= i < ids.len() ==> routed.contains(#[trigger] ids[i]),
    ensures
        finish_batch_spec(route_all(with_entries(table, ids, tokens), routed), ids, outcome).0 == table,
{
    let registered = with_entries(table, ids, tokens);
    lemma_route_all_removes_keys(registered, routed);
    let rs = routed.to_set();
    let is = ids.to_set();
    assert(registered.remove_keys(rs).remove_keys(is) =~= registered.remove_keys(is));
    lemma_batch_entries_removed(table, ids, tokens, is);
    if outcome is Completed {
        assert forall|x: usize| rs.contains(x) <==> ids.contains(x) by {
            if routed.contains(x) {
                let j = choose|j: int| 0 <= j < routed.len() && routed[j] == x;
                assert(ids.contains(routed[j]));
            }
            if ids.contains(x) {
                let j = choose|j: int| 0 <= j < ids.len() && ids[j] == x;
                assert(routed.contains(ids[j]));
            }
        }
        lemma_batch_entries_removed(table, ids, tokens, rs);
    }
}

/// One operation on the table of pending requests: a registration under a
/// key, the routing of a response for a key, or the withdrawal of a key
/// (on a timeout or a failed send).
pub enum TableStep {
    Register(usize, u64),
    Route(usize),
    Withdraw(usize),
}

/// The table after one step.
pub open spec fn apply_step(table: Map<usize, u64>, step: TableStep) -> Map<usize, u64> {
    match step {
        TableStep::Register(k, t) => table.insert(k, t),
        TableStep::Route(k) => route_spec(table, k).0,
        TableStep::Withdraw(k) => table.remove(k),
    }
}

/// The table after a sequence of steps, in order.
pub open spec fn run_steps(table: Map<usize, u64>, steps: Seq<TableStep>) -> Map<usize, u64>
    decreases steps.len(),
{
    if steps.len() == 0 {
        table
    } else {
        apply_step(run_steps(table, steps.drop_last()), steps.last())
    }
}

/// Whether every registration in the steps uses a key that was not pending
/// at its time, as `Client::register` and `Client::register_batch` guarantee.
pub open spec fn registrations_fresh(table: Map<usize, u64>, steps: Seq<TableStep>) -> bool {
    forall|i: int|
        0 <= i < steps.len() ==> match #[trigger] steps[i] {
            TableStep::Register(k, _) => !run_steps(table, steps.take(i)).contains_key(k),
            _ => true,
        }
}

/// Whether a step routes or withdraws `key`.
pub open spec fn ends_key(step: TableStep, key: usize) -> bool {
    match step {
        TableStep::Register(_, _) => false,
        TableStep::Route(k) => k == key,
        TableStep::Withdraw(k) => k == key,
    }
}

/// Whether a step registers something under `key`.
pub open spec fn registers_key(step: TableStep, key: usize) -> bool {
    match step {
        TableStep::Register(k, _) => k == key,
        _ => false,
    }
}

/// Whatever other requests are registered, answered or withdrawn in the
/// meantime, in any interleaving and any order, a pending request keeps its
/// token until its own response is routed, and that response reaches it.
pub proof fn lemma_interleaved_requests_reach_their_waiters(
    table: Map<usize, u64>,
    steps: Seq<TableStep>,
    key: usize,
)
    requires
        table.contains_key(key),
        registrations_fresh(table, steps),
        forall|i: int| 0 <= i < steps.len() ==> !ends_key(#[trigger] steps[i], key),
    ensures
        run_steps(table, steps).contains_key(key),
        route_spec(run_steps(table, steps), key).1 == Some(table[key]),
    decreases steps.len(),
{
    if steps.len() > 0 {
        let shorter = steps.drop_last();
        assert forall|i: int| 0 <= i < shorter.len() implies match #[trigger] shorter[i] {
            TableStep::Register(k, _) => !run_steps(table, shorter.take(i)).contains_key(k),
            _ => true,
        } by {
            assert(shorter.take(i) =~= steps.take(i));
            assert(shorter[i] == steps[i]);
        }
        assert forall|i: int| 0 <= i < shorter.len() implies !ends_key(#[trigger] shorter[i], key) by {
            assert(shorter[i] == steps[i]);
        }
        lemma_interleaved_requests_reach_their_waiters(table, shorter, key);
        let last = steps.len() - 1;
        assert(steps.take(last) =~= shorter);
        assert(!ends_key(steps[last], key));
    }
}

/// A request that was withdrawn (it timed out) receives nothing: until some
/// later registration is handed the same key again, a response that comes
/// for its key reaches no one.
pub proof fn lemma_withdrawn_request_gets_no_response(
    table: Map<usize, u64>,
    steps: Seq<TableStep>,
    key: usize,
)
    requires
        forall|i: int| 0 <= i < steps.len() ==> !registers_key(#[trigger] steps[i], key),
    ensures
        !run_steps(table.remove(key), steps).contains_key(key),
        route_spec(run_steps(table.remove(key), steps), key).1 is None,
    decreases steps.len(),
{
    if steps.len() > 0 {
        let shorter = steps.drop_last();
        assert forall|i: int| 0 <= i < shorter.len() implies !registers_key(#[trigger] shorter[i], key) by {
            assert(shorter[i] == steps[i]);
        }
        lemma_withdrawn_request_gets_no_response(table, shorter, key);
        assert(!registers_key(steps[steps.len() - 1], key));
    }
}

/// Ending a single request touches no other pending request: every other key
/// keeps its token. A request that ended with its response, or whose send or
/// waiter failed, leaves the table as it was; one that timed out is no longer
/// pending. The result is the response itself, or the error of the failure.
pub proof fn lemma_finishing_a_request<Resp>(
    table: Map<usize, u64>,
    id: usize,
    outcome: Outcome<Resp>,
    other: usize,
)
    ensures
        other != id ==> (finish_spec(table, id, outcome).0.contains_key(other)
            == table.contains_key(other)),
        other != id && table.contains_key(other) ==> finish_spec(table, id, outcome).0[other]
            == table[other],
        !(outcome is TimedOut) ==> finish_spec(table, id, outcome).0 == table,
        outcome is TimedOut ==> !finish_spec(table, id, outcome).0.contains_key(id),
        outcome matches Outcome::Responded(r) ==> finish_spec(table, id, outcome).1 == Ok::<
            Resp,
            crate::error::Error,
        >(r),
        outcome matches Outcome::SendFailed(d) ==> finish_spec(table, id, outcome).1 == Err::<
            Resp,
            crate::error::Error,
        >(crate::error::Error::SendFailed(d)),
        outcome matches Outcome::Canceled(d) ==> finish_spec(table, id, outcome).1 == Err::<
            Resp,
            crate::error::Error,
        >(crate::error::Error::ReceiveFailed(d)),
        outcome is TimedOut ==> finish_spec(table, id, outcome).1 == Err::<
            Resp,
            crate::error::Error,
        >(crate::error::Error::Timeout),
{
    if !(outcome is TimedOut) {
        assert(finish_spec(table, id, outcome).0 =~= table);
    }
}

/// A batch whose waiters all received their responses returns exactly one
/// response per request, in the order of the requests, and leaves the table
/// as it was.
pub proof fn lemma_completed_batch_returns_responses_in_order<Resp>(
    table: Map<usize, u64>,
    ids: Seq<usize>,
    results: Vec<Result<Resp, String>>,
)
    requires
        forall|i: int| 0 <= i < results@.len() ==> (#[trigger] results@[i]) is Ok,
    ensures
        finish_batch_spec(table, ids, BatchOutcome::Completed(results)).0 == table,
        finish_batch_spec(table, ids, BatchOutcome::Completed(results)).1 matches Ok(responses)
            && responses.len() == results@.len() && (forall|i: int|
            0 <= i < results@.len() ==> #[trigger] responses[i] == results@[i]->Ok_0),
{
    lemma_batch_keeps_request_order(results@);
}

/// A batch in which some waiter failed ends with the error of the first
/// waiter that failed, and leaves the table as it was.
pub proof fn lemma_failed_batch_reports_first_failure<Resp>(
    table: Map<usize, u64>,
    ids: Seq<usize>,
    results: Vec<Result<Resp, String>>,
    i: int,
)
    requires
        0 <= i < results@.len(),
        results@[i] is Err,
        forall|j: int| 0 <= j < i ==> (#[trigger] results@[j]) is Ok,
    ensures
        finish_batch_spec(table, ids, BatchOutcome::Completed(results)).0 == table,
        finish_batch_spec(table, ids, BatchOutcome::Completed(results)).1 == Err::<
            Seq<Resp>,
            crate::error::Error,
        >(crate::error::Error::ReceiveFailed(results@[i]->Err_0)),
{
    lemma_batch_reports_first_failure(results@, i);
}

/// A batch that timed out or failed to send ends with that error; none of its
/// keys is pending any more, and every other key keeps its token.
pub proof fn lemma_withdrawn_batch<Resp>(
    table: Map<usize, u64>,
    ids: Seq<usize>,
    outcome: BatchOutcome<Resp>,
    key: usize,
)
    requires
        !(outcome is Completed),
    ensures
        ids.contains(key) ==> !finish_batch_spec(table, ids, outcome).0.contains_key(key),
        !ids.contains(key) ==> finish_batch_spec(table, ids, outcome).0.contains_key(key)
            == table.contains_key(key),
        !ids.contains(key) && table.contains_key(key) ==> finish_batch_spec(table, ids, outcome).0[key]
            == table[key],
        outcome is TimedOut ==> finish_batch_spec(table, ids, outcome).1 == Err::<
            Seq<Resp>,
            crate::error::Error,
        >(crate::error::Error::Timeout),
        outcome matches BatchOutcome::SendFailed(d) ==> finish_batch_spec(table, ids, outcome).1
            == Err::<Seq<Resp>, crate::error::Error>(crate::error::Error::SendFailed(d)),
{
}

/// Registering a batch stores the `i`-th token under the `i`-th key and keeps
/// every key that was pending before with its token.
pub proof fn lemma_batch_registration_stores_tokens(
    table: Map<usize, u64>,
    ids: Seq<usize>,
    tokens: Seq<u64>,
    key: usize,
)
    requires
        ids.len() == tokens.len(),
        forall|j: int, k: int| 0 <= j < k < ids.len() ==> #[trigger] ids[j] != #[trigger] ids[k],
        forall|j: int| 0 <= j < ids.len() ==> !table.contains_key(#[trigger] ids[j]),
    ensures
        forall|i: int| 0 <= i < ids.len() ==> with_entries(table, ids, tokens).contains_key(#[trigger] ids[i])
            && with_entries(table, ids, tokens)[ids[i]] == tokens[i],
        with_entries(table, ids, tokens).contains_key(key) <==> (table.contains_key(key) || ids.contains(key)),
        table.contains_key(key) ==> with_entries(table, ids, tokens)[key] == table[key],
{
    lemma_with_entries_keys(table, ids, tokens, key);
    assert forall|i: int| 0 <= i < ids.len() implies with_entries(table, ids, tokens).contains_key(#[trigger] ids[i])
        && with_entries(table, ids, tokens)[ids[i]] == tokens[i] by {
        lemma_batch_responses_reach_their_waiters(table, ids, tokens, i);
    }
    if table.contains_key(key) {
        if ids.contains(key) {
            let j = choose|j: int| 0 <= j < ids.len() && ids[j] == key;
            assert(!table.contains_key(ids[j]));
        }
        lemma_with_entries_keeps(table, ids, tokens, key);
    }
}

} // verus!
