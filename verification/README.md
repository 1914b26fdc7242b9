# dfns_sdk_rust

The transport core of the Dfns API client, verified with Verus.

- `src/` is the verified library:
  - `client.rs`: configuration checks (`Client::new`), the requests the transport
    sends and the replies it reads (`handle_response`);
  - `exchange.rs`: the user-action signing protocol as a state machine
    (`Client::start_*`, `Client::step`) and its laws;
  - `json.rs`: the JSON texts the protocol writes (challenge and completion
    bodies, the `data` part of uploads) and the key-ordered object insert;
  - `text.rs`: canonical request paths, loopback hosts, base URL and file name
    clean-up, the key order;
  - `error.rs`, `signer.rs`: the data types;
  - `outside.rs`: the calls into `reqwest`/`url`, `serde_json`, `sha2`, `hex`
    and std, each with the contract the library relies on.
- `app/` is the asynchronous transport: it performs each action the state
  machine asks for (HTTP with `reqwest`, JSON decoding with `serde`, the
  caller's `UserActionSigner`) and feeds the results back.
- `tests/` runs the library on concrete values.
