//! The decisions of a client: registering requests as pending, routing each
//! response to the request that asked for it, and turning what happened to a
//! request (or to a batch of requests) into its result.
use vstd::prelude::*;

use std::time::Duration;

use crate::error::Error;
use crate::pending::{
    guaranteed_capacity, no_entries, slab_entries, slab_insert, slab_new, take_entry,
    withdraw_entry, TokenSlab,
};

verus! {

/// What happened to a single request after it was registered.
pub enum Outcome<Resp> {
    /// The response arrived.
    Responded(Resp),
    /// The request could not be handed to the responder; carries the error text.
    SendFailed(String),
    /// The waiter was closed before a response came; carries the error text.
    Canceled(String),
    /// The timeout elapsed before the response came.
    TimedOut,
}

/// What happened to a batch of requests after they were registered.
pub enum BatchOutcome<Resp> {
    /// Every waiter finished, in the order of the requests: with its response,
    /// or with the text of the error that closed it.
    Completed(Vec<Result<Resp, String>>),
    /// Some request of the batch could not be handed to the responder;
    /// carries the error text of the first such failure.
    SendFailed(String),
    /// The timeout elapsed before every response came.
    TimedOut,
}

/// The detail of the error when the table of pending requests is full.
pub open spec fn insert_failure_detail() -> Seq<char> {
    "Failed to insert into pending slab"@
}

/// Whether `e` is the error of a full table of pending requests.
pub open spec fn is_insert_failure(e: Error) -> bool {
    e matches Error::InternalError(d) && d@ == insert_failure_detail()
}

/// The error of a full table is the internal error whose detail reads
/// "Failed to insert into pending slab", and no other error.
pub proof fn lemma_insert_failure_text(e: Error)
    ensures
        is_insert_failure(e) <==> (e matches Error::InternalError(d) && d@
            == "Failed to insert into pending slab"@),
{
}

/// The table after a response for `id` is routed, and the token it reaches.
pub open spec fn route_spec(table: Map<usize, u64>, id: usize) -> (Map<usize, u64>, Option<u64>) {
    (table.remove(id), if table.contains_key(id) { Some(table[id]) } else { None })
}

/// The table, and the result, after a single request ends with `outcome`.
pub open spec fn finish_spec<Resp>(table: Map<usize, u64>, id: usize, outcome: Outcome<Resp>) -> (
    Map<usize, u64>,
    Result<Resp, Error>,
) {
    match outcome {
        Outcome::Responded(r) => (table, Ok(r)),
        Outcome::SendFailed(d) => (table, Err(Error::SendFailed(d))),
        Outcome::Canceled(d) => (table, Err(Error::ReceiveFailed(d))),
        Outcome::TimedOut => (table.remove(id), Err(Error::Timeout)),
    }
}

/// The table with `tokens[i]` registered under `ids[i]`, for each `i` in order.
pub open spec fn with_entries(table: Map<usize, u64>, ids: Seq<usize>, tokens: Seq<u64>) -> Map<
    usize,
    u64,
>
    decreases ids.len(),
{
    if ids.len() == 0 {
        table
    } else {
        with_entries(table, ids.drop_last(), tokens).insert(ids.last(), tokens[ids.len() - 1])
    }
}

/// A key is registered in `with_entries(table, ids, tokens)` exactly when it
/// was in the table or is one of `ids`.
pub proof fn lemma_with_entries_keys(table: Map<usize, u64>, ids: Seq<usize>, tokens: Seq<u64>, key: usize)
    ensures
        with_entries(table, ids, tokens).contains_key(key) <==> (table.contains_key(key) || ids.contains(key)),
    decreases ids.len(),
{
    if ids.len() > 0 {
        lemma_with_entries_keys(table, ids.drop_last(), tokens, key);
        if ids.drop_last().contains(key) {
            let j = choose|j: int| 0 <= j < ids.drop_last().len() && ids.drop_last()[j] == key;
            assert(ids[j] == key);
        }
        if ids.contains(key) && key != ids.last() {
            let j = choose|j: int| 0 <= j < ids.len() && ids[j] == key;
            assert(ids.drop_last()[j] == key);
        }
    }
}

/// Whether some waiter of the batch ended with an error.
pub open spec fn has_failure<Resp>(results: Seq<Result<Resp, String>>) -> bool {
    exists|i: int| 0 <= i < results.len() && results[i] is Err
}

/// Whether `i` is the first waiter of the batch that ended with an error.
pub open spec fn is_first_failure<Resp>(results: Seq<Result<Resp, String>>, i: int) -> bool {
    &&& 0 <= i < results.len()
    &&& results[i] is Err
    &&& forall|j: int| 0 <= j < i ==> results[j] is Ok
}

/// The result of a batch whose waiters all finished: the responses in the
/// order of the requests, or the error of the first waiter that failed.
pub open spec fn collect_spec<Resp>(results: Seq<Result<Resp, String>>) -> Result<
    Seq<Resp>,
    Error,
> {
    if has_failure(results) {
        let i = choose|i: int| is_first_failure(results, i);
        Err(Error::ReceiveFailed(results[i]->Err_0))
    } else {
        Ok(Seq::new(results.len(), |i: int| results[i]->Ok_0))
    }
}

/// The table, and the result, after a batch registered under `ids` ends with `outcome`.
pub open spec fn finish_batch_spec<Resp>(
    table: Map<usize, u64>,
    ids: Seq<usize>,
    outcome: BatchOutcome<Resp>,
) -> (Map<usize, u64>, Result<Seq<Resp>, Error>) {
    match outcome {
        BatchOutcome::Completed(results) => (table, collect_spec(results@)),
        BatchOutcome::SendFailed(d) => (table.remove_keys(ids.to_set()), Err(Error::SendFailed(d))),
        BatchOutcome::TimedOut => (table.remove_keys(ids.to_set()), Err(Error::Timeout)),
    }
}

/// The result of registering a request, from the key that the table handed
/// out: the key itself, or the error of a full table when it handed out none.
pub fn registration_outcome(key: Option<usize>) -> (id: Result<usize, Error>)
    ensures
        match key {
            Some(k) => id == Ok::<usize, Error>(k),
            None => id matches Err(e) && is_insert_failure(e),
        },
{
    match key {
        Some(k) => Ok(k),
        None => Err(Error::InternalError(String::from_str("Failed to insert into pending slab"))),
    }
}

/// A result that holds a `Vec`, with the vector taken by its contents.
pub open spec fn vec_result_view<T>(r: Result<Vec<T>, Error>) -> Result<Seq<T>, Error> {
    match r {
        Ok(v) => Ok(v@),
        Err(e) => Err(e),
    }
}

/// Collects the results of the waiters of a batch, in order; the first
/// waiter that failed decides the error.
fn collect_responses<Resp>(results: Vec<Result<Resp, String>>) -> (collected: Result<Vec<Resp>, Error>)
    ensures
        vec_result_view(collected) == collect_spec(results@),
{
    let ghost all = results@;
    let mut responses: Vec<Resp> = Vec::new();
    for r in it: results.into_iter()
        invariant
            it.seq() == all,
            responses@.len() == it.index(),
            forall|j: int| 0 <= j < it.index() ==> (#[trigger] all[j]) is Ok && responses@[j] == all[j]->Ok_0,
    {
        match r {
            Ok(v) => {
                responses.push(v);
            },
            Err(d) => {
                proof {
                    let i = it.index() as int;
                    assert(is_first_failure(all, i));
                    let f = choose|f: int| is_first_failure(all, f);
                    assert(f == i) by {
                        if f < i { assert(all[f] is Ok); }
                        if i < f { assert(all[i] is Ok); }
                    }
                }
                return Err(Error::ReceiveFailed(d));
            },
        }
    }
    proof {
        assert(!has_failure(all)) by {
            if has_failure(all) {
                let f = choose|f: int| 0 <= f < all.len() && all[f] is Err;
                assert(all[f] is Ok);
            }
        }
        assert(responses@ =~= Seq::new(all.len(), |i: int| all[i]->Ok_0));
    }
    Ok(responses)
}

/// The state a client keeps: the pending requests and the default timeout.
pub struct Client {
    pending: TokenSlab,
    timeout: Duration,
}

impl View for Client {
    /// For each pending request, its key and its waiter's token.
    type V = Map<usize, u64>;

    closed spec fn view(&self) -> Map<usize, u64> {
        slab_entries(self.pending)
    }
}

impl Client {
    /// The timeout that `request` and `request_batch` start from.
    pub closed spec fn configured_timeout(&self) -> Duration {
        self.timeout
    }

    /// A client with no pending request and the given default timeout.
    pub fn new(timeout: Duration) -> (client: Self)
        ensures
            client@ == no_entries(),
            client.configured_timeout() == timeout,
    {
        Client { pending: slab_new(), timeout }
    }

    /// The default timeout, with which `request` waits for its response.
    pub fn default_timeout(&self) -> (timeout: Duration)
        ensures
            timeout == self.configured_timeout(),
    {
        self.timeout
    }

    /// Registers a request whose waiter is known by `token`, returning the key
    /// under which it is pending; fails when the table is full.
    pub fn register(&mut self, token: u64) -> (id: Result<usize, Error>)
        ensures
            final(self).configured_timeout() == old(self).configured_timeout(),
            old(self)@.dom().finite() && old(self)@.len() < guaranteed_capacity() ==> id is Ok,
            match id {
                Ok(k) => !old(self)@.contains_key(k) && final(self)@ == old(self)@.insert(k, token),
                Err(e) => final(self)@ == old(self)@ && is_insert_failure(e),
            },
    {
        let key = slab_insert(&mut self.pending, token);
        registration_outcome(key)
    }

    /// Routes a response that came back for `id`: the request pending under
    /// `id` is no longer pending, and its token is returned (`None` when no
    /// request is pending under `id`, as for a response that came too late).
    pub fn route_response(&mut self, id: usize) -> (token: Option<u64>)
        ensures
            final(self).configured_timeout() == old(self).configured_timeout(),
            (final(self)@, token) == route_spec(old(self)@, id),
    {
        take_entry(&mut self.pending, id)
    }

    /// Ends a single request pending under `id` with what happened to it: a
    /// response is returned as it came; a failure to send or a closed waiter
    /// becomes its error, and the table is left as it was; a timeout takes
    /// the request out of the table.
    pub fn finish_request<Resp>(&mut self, id: usize, outcome: Outcome<Resp>) -> (result: Result<
        Resp,
        Error,
    >)
        ensures
            final(self).configured_timeout() == old(self).configured_timeout(),
            (final(self)@, result) == finish_spec(old(self)@, id, outcome),
    {
        match outcome {
            Outcome::Responded(r) => Ok(r),
            Outcome::SendFailed(d) => Err(Error::SendFailed(d)),
            Outcome::Canceled(d) => Err(Error::ReceiveFailed(d)),
            Outcome::TimedOut => {
                withdraw_entry(&mut self.pending, id);
                Err(Error::Timeout)
            },
        }
    }

    /// Registers a batch of requests, the `i`-th waiter known by `tokens[i]`,
    /// and returns their keys in the same order. When the table is full
    /// before every request is registered, the ones registered so far are
    /// taken out again and the table is left as it was. An empty batch
    /// registers nothing and always succeeds.
    pub fn register_batch(&mut self, tokens: &Vec<u64>) -> (ids: Result<Vec<usize>, Error>)
        ensures
            final(self).configured_timeout() == old(self).configured_timeout(),
            tokens@.len() == 0 ==> (ids matches Ok(ks) && ks@.len() == 0),
            old(self)@.dom().finite() && old(self)@.len() + tokens@.len() <= guaranteed_capacity()
                ==> ids is Ok,
            match ids {
                Ok(ks) => {
                    &&& ks@.len() == tokens@.len()
                    &&& final(self)@ == with_entries(old(self)@, ks@, tokens@)
                    &&& forall|i: int| 0 <= i < ks@.len() ==> !old(self)@.contains_key(#[trigger] ks@[i])
                    &&& forall|i: int, j: int|
                        0 <= i < j < ks@.len() ==> #[trigger] ks@[i] != #[trigger] ks@[j]
                },
                Err(e) => final(self)@ == old(self)@ && is_insert_failure(e),
            },
    {
        let ghost start = self@;
        let mut ids: Vec<usize> = Vec::new();
        let mut i: usize = 0;
        while i < tokens.len()
            invariant
                i <= tokens.len(),
                ids@.len() == i,
                self@ == with_entries(start, ids@, tokens@),
                self.configured_timeout() == old(self).configured_timeout(),
                start == old(self)@,
                start.dom().finite() ==> self@.dom().finite() && self@.len() == start.len() + i,
                forall|j: int| 0 <= j < ids@.len() ==> !start.contains_key(#[trigger] ids@[j]),
                forall|j: int, k: int|
                    0 <= j < k < ids@.len() ==> #[trigger] ids@[j] != #[trigger] ids@[k],
            decreases tokens.len() - i,
        {
            match slab_insert(&mut self.pending, tokens[i]) {
                Some(k) => {
                    proof {
                        lemma_with_entries_keys(start, ids@, tokens@, k);
                        assert(ids@.push(k).drop_last() =~= ids@);
                        assert forall|j: int| 0 <= j < ids@.len() implies ids@[j] != k by {
                            assert(ids@.contains(ids@[j]));
                        }
                    }
                    ids.push(k);
                },
                None => {
                    self.release(&ids, Ghost(tokens@), Ghost(start));
                    return Err(
                        Error::InternalError(String::from_str("Failed to insert into pending slab")),
                    );
                },
            }
            i = i + 1;
        }
        Ok(ids)
    }

    /// Takes the requests registered under `ids` out of the table again, last first.
    fn release(&mut self, ids: &Vec<usize>, Ghost(tokens): Ghost<Seq<u64>>, Ghost(start): Ghost<
        Map<usize, u64>,
    >)
        requires
            ids@.len() <= tokens.len(),
            old(self)@ == with_entries(start, ids@, tokens),
            forall|j: int| 0 <= j < ids@.len() ==> !start.contains_key(#[trigger] ids@[j]),
            forall|j: int, k: int| 0 <= j < k < ids@.len() ==> #[trigger] ids@[j] != #[trigger] ids@[k],
        ensures
            final(self)@ == start,
            final(self).configured_timeout() == old(self).configured_timeout(),
    {
        let mut n: usize = ids.len();
        assert(ids@.take(n as int) =~= ids@);
        while n > 0
            invariant
                n <= ids@.len(),
                ids@.len() <= tokens.len(),
                self@ == with_entries(start, ids@.take(n as int), tokens),
                self.configured_timeout() == old(self).configured_timeout(),
                forall|j: int| 0 <= j < ids@.len() ==> !start.contains_key(#[trigger] ids@[j]),
                forall|j: int, k: int|
                    0 <= j < k < ids@.len() ==> #[trigger] ids@[j] != #[trigger] ids@[k],
            decreases n,
        {
            n = n - 1;
            let key = ids[n];
            proof {
                let shorter = ids@.take(n as int);
                assert(ids@.take(n + 1).drop_last() =~= shorter);
                lemma_with_entries_keys(start, shorter, tokens, key);
                assert forall|j: int| 0 <= j < shorter.len() implies shorter[j] != key by {
                    assert(ids@[j] != ids@[n as int]);
                }
                assert(!shorter.contains(key));
                let before = with_entries(start, shorter, tokens);
                assert(before.insert(key, tokens[n as int]).remove(key) =~= before);
            }
            withdraw_entry(&mut self.pending, key);
        }
        assert(ids@.take(0) =~= Seq::<usize>::empty());
    }

    /// Ends a batch of requests registered under `ids` with what happened to
    /// it: when every waiter finished, the responses in the order of the
    /// requests, or the error of the first waiter that failed; on a timeout,
    /// or when a request could not be sent, every request of the batch is
    /// taken out of the table.
    pub fn finish_batch<Resp>(&mut self, ids: &Vec<usize>, outcome: BatchOutcome<Resp>) -> (result:
        Result<Vec<Resp>, Error>)
        ensures
            final(self).configured_timeout() == old(self).configured_timeout(),
            (final(self)@, vec_result_view(result)) == finish_batch_spec(old(self)@, ids@, outcome),
    {
        match outcome {
            BatchOutcome::Completed(results) => collect_responses(results),
            BatchOutcome::SendFailed(d) => {
                self.withdraw_all(ids);
                Err(Error::SendFailed(d))
            },
            BatchOutcome::TimedOut => {
                self.withdraw_all(ids);
                Err(Error::Timeout)
            },
        }
    }

    /// Takes every request registered under `ids` out of the table.
    fn withdraw_all(&mut self, ids: &Vec<usize>)
        ensures
            final(self)@ == old(self)@.remove_keys(ids@.to_set()),
            final(self).configured_timeout() == old(self).configured_timeout(),
    {
        let ghost start = self@;
        let mut i: usize = 0;
        while i < ids.len()
            invariant
                i <= ids@.len(),
                self@ == start.remove_keys(ids@.take(i as int).to_set()),
                self.configured_timeout() == old(self).configured_timeout(),
            decreases ids.len() - i,
        {
            let key = ids[i];
            proof {
                let before = ids@.take(i as int);
                let after = ids@.take(i + 1);
                assert forall|x: usize| after.contains(x) <==> (before.contains(x) || x == key) by {
                    if after.contains(x) {
                        let j = choose|j: int| 0 <= j < after.len() && after[j] == x;
                        if j < i {
                            assert(before[j] == x);
                        }
                    }
                    if before.contains(x) {
                        let j = choose|j: int| 0 <= j < before.len() && before[j] == x;
                        assert(after[j] == x);
                    }
                    if x == key {
                        assert(after[i as int] == x);
                    }
                }
                assert(after.to_set() =~= before.to_set().insert(key));
                assert(start.remove_keys(ids@.take(i as int).to_set()).remove(key)
                    =~= start.remove_keys(ids@.take(i + 1).to_set()));
            }
            withdraw_entry(&mut self.pending, key);
            i = i + 1;
        }
        assert(ids@.take(ids@.len() as int) =~= ids@);
    }
}

} // verus!
