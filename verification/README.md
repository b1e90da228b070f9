# rust_sql

A lightweight SQL client for PostgreSQL and MySQL that speaks the native wire
protocols, with its protocol logic verified by Verus.

- `src/` is the verified library: message framing and classification
  (`protocol`, `mysql_protocol`), result decoding (`postgres_protocol`,
  `mysql_protocol::result`), SCRAM-SHA-256 and `caching_sha2_password`
  authentication, the start-up, handshake and query conversations as state
  machines (`backend`), connection and pool bookkeeping (`connection`), the
  commit of a session's unit of work (`session`), and the result types and
  their text renderings (`table`, `query`). Hashing, HMAC, PBKDF2, Base64, RSA and
  random nonces come from the RustCrypto, `base64` and `rand` crates behind
  small trusted wrappers in `crypto`.
- `app/` holds what performs I/O: TCP connections that run the state
  machines, the thread-safe connection pool, sessions that carry out the
  commit actions, and `Display` for results (floating-point formatting).
- `tests/` exercises the library on concrete packets, including the
  SCRAM-SHA-256 exchange of RFC 7677.
