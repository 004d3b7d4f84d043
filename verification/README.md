# openaccounting

The decision logic of a double-entry accounting web application, written
in Verus and proved against its contracts.

- `src/` — the verified library.
  - `amount`, `date`, `text`, `numparse`, `uuid_text`: decimal amounts
    (the `rust_decimal` representation), calendar dates, strings, numbers
    and UUIDs, with the calls into `rust_decimal`, `chrono`, `uuid` and
    `std` behind small trusted wrappers.
  - `journal`: postings and what makes an entry balanced.
  - `export`, `escape`, `wrap`, `lines`, `csv_table`, `csv_import`,
    `form_body`, `signature`, `events_in`, `pdf`, `health`, `error`:
    exports (DATEV, SAF-T, XBRL), escaping, CSV and form-body reading,
    webhook signatures and the fail-closed intake of signed events, report
    tables, readiness and the application error.
  - `handlers/`: what each request decides — form checks, state
    transitions, the entries a request posts (closing, payments,
    reimbursements, inventory, opening balances), depreciation, budgets,
    aging, foreign exchange, estimates and invoices, access to ledgers.
- `tests/` — tests of the library on concrete values.
- `app/` — what stays outside: form and JSON payloads with `serde`, the
  `printpdf` renderer, and the dashboard figures computed in floating
  point.
