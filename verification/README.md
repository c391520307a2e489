# order_dashboard

The verified core of a multi-venue crypto trading dashboard, written in Verus.

`src/` holds the logic, each function with a contract that Verus proves:

- `api/` — per-venue request signing (HMAC, SHA-256, Keccak, secp256k1),
  symbol and instrument vocabularies, order and ledger vocabularies, paging
  and time-window decisions, RLP/ABI encoding for EVM transactions.
- `book`, `agg_book`, `ws_book` — local order books keyed by integer price,
  snapshots, deltas, top-of-book, the merge of several venues' books and
  the caps of emitted updates, and how each venue's book messages are read.
- `rate_limits`, `rate_tier` — per-exchange, per-tier request budgets, and
  the order in which a request's buckets are tried and refunded.
- `order_id` — client order ids that carry their origin and round-trip.
- `telegram` — broadcast planning, recipients, and reply bookkeeping.
- `ledger`, `tasks`, `market` — ledger sources and ordering, the tables of
  running background tasks, market-data subscriptions and the routing of
  feed messages.
- `text`, `decimal`, `lexi`, `digest`, `calendar`, `clock`, `evm` — shared
  helpers over characters, decimal text, ordering, digests, dates and time.

Calls into outside crates (hashing, HMAC, hex, base64, secp256k1, chrono,
hostname, serde_json) sit behind small trusted wrappers whose contracts
state what the crates document.

`app/` is the unverified shell: serializable copies of the library's types,
floating-point pricing, book arithmetic and ledger equity, the token
buckets of the rate limiter, JSON glue, and the task registries behind
locks.

`tests/` exercise the library on concrete values.
