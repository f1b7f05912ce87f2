# memori_storage

The storage layer of a conversational memory engine, verified with Verus.

The database lives with a host program (a Node.js process): the library never
talks to it directly. Every storage operation is a pure step function that takes
the host's replies so far and returns either the next request (a SQL statement,
an embedding, a transaction command) or the final result.
Contracts state each operation's requests and result over the replies.

Layout:

- `src/dialect.rs` — SQL dialects and their rules.
- `src/json.rs` — the JSON model that rows and write payloads are read through.
- `src/models.rs` — errors, write batches, fact ids, result rows.
- `src/connection.rs` — bind parameters, statements, requests and replies.
- `src/drivers/` — the uniqueness keys of stored rows, and the MySQL driver:
  every statement it sends, and how it reads
  the rows that come back.
- `src/manager.rs` — the write-batch interpreter and the read flows.
- `src/transaction.rs` — connection handling, the batch transaction and its
  retry policy.
- `src/bridge.rs` — how the host's JSON answers are read.
- `src/laws.rs` — properties that span several functions.
- `app/` — the host side: connection traits, the storage manager's loops and
  the Node.js callback bridge.
- `tests/` — tests on concrete values.
