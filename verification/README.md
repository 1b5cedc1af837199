# city_tiles_pos

The back end of a point-of-sale system for a tile and marble shop: sales
invoices with stock checks and credit balances, returns, supplier purchases,
cashier accounts, thermal receipts, PDF invoices, CSV product import,
database backups and a yearly retention purge.

## Layout

- `src/` — the verified library (Verus). Every rule the shop runs on lives
  here with its contract: invoice and purchase numbering, stock shortfalls,
  payments and balances, return limits, receipt layout (text, ESC/POS and
  raster), CSV rows, backup naming and ordering, token claims and role checks.
  Calls into `chrono`, `csv` and `bcrypt` go through small trusted wrappers
  whose contracts are written beside them.
- `tests/` — tests on concrete values, run against the compiled library.
- `app/` — the unverified shell around the library: the SQLite store
  (`sqlx`), token signing (`jsonwebtoken`), USB printing (`rusb`) and the
  system print queue, glyph rasterising (`ab_glyph`), PDF output (`genpdf`), file
  system work and the command handlers that tie these to the library.
