# zenith_backend

Backend of Zenith, a paper-trading options desk for Stellar wallets.

- `src/` is the verified core (Verus): the Stellar strkey codec with its
  CRC16/XMODEM checksum, sign-in-with-wallet decisions (nonces, ed25519
  signature checks, session tokens, bearer tokens), RFC 3339 timestamps and
  the proof that they sort like the instants they name, pagination, the
  decisions of the live spot-price WebSocket feed, the
  expiry calendar, rate-limit keys, request ids, and the request rules of
  positions, alerts, watchlists, strategies and payoff requests.
- `app/` is the HTTP server around it (axum, SQLite through sqlx, the
  Black-Scholes pricing and payoff math in floating point, background
  loops).
- `tests/` exercises the core on concrete values.
