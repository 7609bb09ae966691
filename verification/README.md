# pg_crypto

Cryptographic functions in the manner of PostgreSQL's pgcrypto (digests,
HMAC, crypt(3) passwords, raw AES/Blowfish, OpenPGP, ASCII armor, random
bytes) beside a modern authenticated API (Argon2id, XChaCha20-Poly1305,
secretbox, sealed boxes, Ed25519, X25519, HKDF).

`src/` is a Verus library: the option parsers, key and padding rules,
salt handling, header checks, line-end conversion and the staging of
OpenPGP messages are verified against their specifications. Calls of
RustCrypto, dryoc, pwhash and Sequoia stand behind small wrappers whose
contracts state what those crates document.

- `text`, `pgp_options`: character-level helpers and the pgcrypto option
  strings.
- `raw`, `block_modes`: the raw cipher functions and the block modes.
- `hash`, `digests`: `digest`, `hmac` and the hash helpers.
- `password`, `password_hashes`: `crypt` and `gen_salt`.
- `modern`, `sodium`: the modern API and its dryoc calls.
- `pgp`, `pgp_engine`: OpenPGP encryption, decrypted-text checks, key IDs
  and secret key unlocking, and their Sequoia calls.
- `armor`, `random`.

`app/` is the PostgreSQL extension built with pgrx: the SQL entry points,
error reporting, and OpenPGP decryption, which Sequoia drives through
helper traits that the extension implements.
