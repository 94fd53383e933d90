# card_vault

A local Magic: The Gathering inventory and sales tracker, split into a
verified library and the server around it.

- `src/` — the library, written in Verus. Its functions carry
  `requires`/`ensures` contracts that Verus proves; the few small
  functions that call std, chrono, rand, uuid or serde_json carry
  contracts that are trusted, not proved, and the functions that read
  the clock or draw random values state only what holds of every
  outcome:
  - `text` — trimming, substring search, decimal formatting and parsing
    (with round-trip laws), Unicode case mapping;
  - `config` — defaults for unset variables, `HOST` aliases, the port;
  - `clock` — Unix time in seconds;
  - `db::import` — CardSphere value normalisation, tag lists as JSON,
    the plan of each CSV row and the import tally (every row ends in a
    written lot or exactly one message);
  - `db::bulk` — which bulk data files still need importing, newest
    first, and how their cards are batched;
  - `routes::*` — the decisions of each page: filters, form fields,
    generated IDs and UIDs, invoice numbers, shipping labels, HTML
    fragments of the import page, error responses.
- `tests/` — ordinary Rust tests of the library on concrete values.
- `app/` — the axum server: HTTP, SQLite (sqlx), templates (minijinja),
  CSV and JSON decoding, the Scryfall API, and the floating-point price
  arithmetic.
