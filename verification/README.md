# ypf_ruta

The verified core of YPF Ruta, a distributed service that authorizes fuel
charges against per-card and per-account limits. A leader orders every
operation, replicates it to the replicas through a log, executes it once a
majority acknowledged it, and answers the pump station or the administrative
client that asked. Nodes elect a leader with the Bully algorithm and can work
offline, approving charges at once and reconciling them later.

## Layout

- `src/` — the library, checked by Verus:
  - `operation.rs`, `errors.rs`, `address.rs`: business operations and
    results (amounts in hundredths), errors, node addresses and ids.
  - `actors/`: the account and card actors, their router, the business
    model they implement (`model.rs`) and its laws (`laws.rs`, and
    `card_laws.rs` for the order in which a card runs its tasks).
  - `database.rs`: the node's handle on its actors.
  - `bytes.rs`, `codec.rs`, `record.rs`, `frame.rs`: the binary wire format,
    the length-prefixed framing of messages on a stream, and their
    round-trip laws.
  - `node/`: cluster membership, the leader and replica roles, the runtime
    that dispatches events to them and switches roles, Bully election state,
    and the laws of replication and election (`laws.rs`). Handlers return
    the actions (sends, executions, station replies) the node must perform.
  - `station.rs`: console lines of the pump station, what each asks for,
    and the one-charge-per-pump table.
  - `conn_table.rs`: open connections with least-recently-used eviction.
- `app/` — the server binary: command line, TCP connections, the station's
  console, the event loop that performs the library's actions, and the
  conversions between floating-point amounts and hundredths.
- `tests/` — tests of the library.
