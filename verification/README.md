# alpha_proxy

A multi-protocol proxy server (SOCKS5, HTTP with CONNECT, transparent
redirection) whose decisions are verified with Verus.

- `src/` is the verified library: error types and their messages, the
  configuration and its checks, the SOCKS5 wire format, the HTTP
  `Proxy-Authorization` reading and connection admission, the CSV account
  table and its file format, authentication against stored documents,
  password hashing, login-attempt limits, token buckets per key, the admin
  API's account records, and per-connection metrics.
- `tests/` runs the library on concrete values.
- `app/` is the server program around the library: configuration files,
  sockets, the HTTP and admin servers, clocks and floating-point rates.
