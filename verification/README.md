# tikv_client policy logic

Verified (Verus) core of a TiKV client's request policy.

- `src/read_options.rs`: per-attempt read deadline, and the store of attempt
  logs that every copy of the options records into through one handle.
- `src/rpc_interceptor.rs`: registry of RPC interceptors with scoped guards,
  and how the interceptors' answers combine into batch size, lock TTL and
  heartbeat policy.
- `src/store/client.rs`: decisions of one dispatch (deadline, delay, what an
  elapsed deadline reports).
- `src/error.rs`: errors, and which of them are read timeouts.
- `src/transaction/`: shared locks, pessimistic-lock retry budgets, lock
  requests and prewrite shards.
- `src/kvrpcpb.rs`: the protocol messages these read and build.
- `src/kv.rs`, `src/timestamp.rs`, `src/backoff.rs`: keys, oracle timestamps
  and their versions, retry backoffs.
- `src/duration.rs`: the trusted view of `std::time::Duration`.

`app/` holds what Verus does not take: the `RpcInterceptor` trait (its
methods take `&dyn Any`), the process-wide registry and attempt-log store,
the downcasts of dispatched requests, and the async dispatch with tokio.
