# mycloud

A personal media library (photos and videos, albums, share links, end-to-end encryption keys)
and the cloud-backed file cache it can store its files in (a local cache synchronised to Google
Drive, with encryption at rest and eviction).

- `src/` is the library, verified with Verus: identifiers and metadata of cached files, the
  cache's eviction order, sync decisions and retry back-off, encryption at rest (a ChaCha20
  keystream whose decryption undoes encryption, also for byte ranges), the account key scheme
  (Argon2 key-encryption keys, AES-GCM wrapping, sealing into session tokens, recovery keys),
  access to albums and share links, upload layout and processing plans, SQL composition, and
  the server settings. Calls into outside crates (cryptography, encodings, parsers, random
  numbers, clocks) go through small trusted wrappers whose contracts say what those crates do.
- `tests/` runs the library with the real outside crates linked.
- `app/` is the two HTTP servers around the library (`mycloud` for the media library,
  `mycloud cloudstore` for the file cache): routing, the databases, file and network I/O,
  image decoding and resizing, and JSON.
