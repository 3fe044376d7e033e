# async_duplex_channel

An asynchronous duplex channel between many clients and one responder.
A client sends requests and waits for the matching responses; the responder
handles the requests with a fixed or a dynamically adjusted level of
concurrency.

The crate is in two parts:

- `src/` is the verified library. `pending` holds the table of pending
  requests (a `sharded_slab::Slab`); `client` registers requests, routes each
  response to the request that asked for it, and decides the result of a
  single or batched request; `concurrency` holds
  the strategies of the responder and the rule by which the dynamic strategy
  adapts to response times; `laws` proves what holds across these operations.
- `app/` runs the protocol over `futures` channels on the `tokio` runtime:
  the asynchronous `Client`, `ResponderBuilder`, `Responder` and `channel`.
