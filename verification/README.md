# stream

The stream layer of a caching proxy, as a verified Verus library.

- `src/receiver.rs` buffers a client's bytes and cuts them into requests.
- `src/bridge.rs` cuts a server's bytes into numbered responses.
- `src/multi_get.rs` looks up many keys in layers of cache and merges the
  answers.
- `src/endpoint.rs` names the kinds of service.
- `src/request.rs`, `src/response.rs`, `src/error.rs` and `src/poll.rs` hold the
  values these work on.
- `src/read_buf.rs` states what is relied on of tokio's `ReadBuf`.
- `src/*_laws.rs` prove what holds over any number of steps.

The library does no I/O. Each part is a state machine: it is told what happened
and answers what to do next. `app/` polls the sockets, parsers and backends and
does what the machines say.
