# lzc-sdk

Rust SDK for `LazyCat` application and device APIs, with its protocol and
validation logic verified by Verus.

- `src/` — the verified library: SOCKS5 address codec and handshake messages,
  `RemoteSocks` UDP framing and proxy-endpoint selection, `RemoteSocks` URL
  and device URL validation, gateway-address normalization, credential and
  certificate checks, request signing, peer identity, service-status mapping,
  route search and token refresh timing. Calls into outside crates (`url`,
  `http`, `base64`, `x509-parser`, `rustls-pemfile`, `rustls`,
  `ed25519-dalek`, `rsa`, `tonic`) sit behind small trusted wrappers whose
  contracts are documented where they are declared.
- `app/` — the I/O around it: credential files, Unix and TCP sockets, TLS,
  gRPC channels and calls, token caching, and the async `RemoteSocks` TCP and
  UDP sockets.
- `tests/` — tests of the library on concrete values.
