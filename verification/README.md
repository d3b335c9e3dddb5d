# studio-core

The operational core of a small live-radio studio: broadcast profiles and their
validation, the broadcast state machine and reconnect back-off, the on-disk
chunk spool with checksums, WAV framing and crash recovery, credential
planning, encoder argument lists, connection preflight verdicts and the
redaction of secrets from diagnostics.

The functions under `src/` are verified with Verus against the contracts in
their headers, with two exceptions that are trusted rather than verified: the
wrappers `spool::sha256_digest` (around `sha2::Sha256::digest`, whose result is
named by `spool::sha256`) and `text::push_char` (around `String::push`). Their
contracts are believed, not proved. `std::path::PathBuf` is declared so that the
spool can carry its root directory unread. The public `proof fn`s state the
properties that hold across calls (for example that a saved credential is the
one the transport uses, or that an acknowledged chunk is pruned from the spool).

Layout:

- `src/` — the verified library (`reliability`, `profile`, `credentials`,
  `transport`, `encoder`, `session`, `spool`, `recording`, `devices`,
  `diagnostics`, and `text` for the string specifications they share).
- `tests/` — ordinary Rust tests that run the library on concrete values.
- `app/` — the desktop shell: audio capture, the encoder process, files,
  the keychain and the UI commands. It asks the library for every decision
  and performs the I/O itself.
