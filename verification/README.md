# stele

A shared memory and knowledge-graph server with its command-line client,
written as a verified library (`src/`, checked by Verus) and a thin program
around it (`app/`).

`src/` holds the logic with its contracts: the SQL statements the store runs
(search filters, scope prefixes, idempotent creation of entities and
relations), MCP tool replies and templates, session state merging, mailbox
addresses and delivery decisions (retry schedule, sweep transitions), client
requests and output tables, connection profiles and server settings. Calls
into outside crates (base64, rand, ulid, chrono, hostname, gethostname) and a
few std functions stand behind small trusted wrappers whose contracts are
stated in their doc comments.

`app/` does the input and output: the HTTP and MCP servers (axum, rmcp), the
SQLite connection (rusqlite), configuration files (toml), the HTTP client
(ureq) and the command line (clap). `tests/` exercise the library with the
real outside crates linked.
