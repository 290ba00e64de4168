# cosmic_gemini

The core of a Gemini browser and of HYDRA, the certificate-observation
network it takes part in, written in Verus: each function carries a
`requires`/`ensures` contract and is proved against it.

## Layout

- `src/` — the verified library.
  - Browser state: `model`, `tab`, `session`, `update` (the message
    handler: what every message does to the model and which effects it
    asks for), `browser`, `keys`, `config`.
  - Pages and protocols: `parser` (Gemini response headers), `gemtext`,
    `urlparse`, `fetch` (redirects, downloads, images), `client`, `titan`,
    `misfin`, `known_hosts` (trust on first use), `identity`, `paths`.
  - HYDRA: `event`, `event_log` (a hash-chained, signed log), `ledger`
    (certificate consensus per domain), `alert`, `observation`, `sync`,
    `peer`, `bootstrap` (the peer protocol), `node` (the node's state
    machine), `node_identity`, `crypto`, `base64`.
  - Shared pieces: `text`, `strmap`, `num`, `json`, `time`, `error`.
  - Calls into outside crates (`url`, `chrono`, `sha2`, `hkdf`,
    `ed25519-dalek`, `rcgen`, `rustls-pemfile`, `x509-parser`, `uuid`,
    `dirs`, `hex`) go through small wrappers whose contracts say what the
    crates document; the logic around them is verified.
- `tests/` — tests of the library, run against the real outside crates.
- `app/` — a terminal front end: command line, files, TLS connections,
  the HYDRA node's I/O, and serde forms of the library's types. It asks
  `update` what to do and carries out the effects it returns.
