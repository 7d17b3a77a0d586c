# CryptoScope

CryptoScope catalogues the perpetual and futures instruments of a crypto
exchange (Bybit V5), screens them for daily price changes, and serves the
results through a REST API, an MCP server for AI agents, and a command-line
report.

## Layout

- `src/` — the library, verified with Verus: symbol and statistics models,
  request validation, error mapping, authentication decisions and token rules, cross-origin
  policy, MCP parameter checks and request building, Bybit URL building and
  response checks, path normalization and validation, schema migration
  plans, the open-price fetch policies (staleness, retries, progress tally,
  concurrency settings),
  the pairing of open prices with tickers, and the text report and result
  table layouts.
- `tests/` — tests of the library on concrete values.
- `app/` — the executable around the library: the Axum server, the MCP
  server, HTTP and SQLite access, the floating-point price arithmetic and
  formatting, and argument parsing.

## Running

```bash
cryptoscope                  # REST API server (JWT_SECRET, ADMIN_USER, ADMIN_PASS_HASH required)
cryptoscope mcp-server       # MCP server over stdio (CRYPTOSCOPE_API_URL)
cryptoscope generate-hash pw # argon2id hash for ADMIN_PASS_HASH
cryptoscope report --cli     # text report of the exchange's symbols
cryptoscope report screener  # price screener table
```
