# bijoux

Cost bookkeeping for makers of handmade goods, verified with Verus.

- `src/` is the verified library:
  - `text`: white-space trimming, prefix stripping, splitting at a character.
  - `decimal`: reading decimal `i32` values, with the error kinds and texts
    of `i32::from_str`, and the proof that printed numbers read back.
  - `supplies`: typed supply entries (`name, cost, quantity, unit`):
    reading quantities and units, validation, making items.
  - `cost`: which units convert and by which exact factor, which supply
    prices each usage, durations in hours.
  - `state`: grouping stored rows under their owners, stored flags, sort
    positions.
  - `access`: bearer tokens, opening accounts and signing in (with `bcrypt`
    and `uuid`).
  - `models`: plain forms of the account and configuration requests.
- `app/` runs the web backend (axum, sqlx) and the terminal entry of
  supplies; it does the I/O and the floating-point arithmetic.
- `tests/` exercises the library.
