# kenv_core

The core of kenv, a password-protected vault for credentials and SSH keys,
written in Verus: every function in `src/` carries a contract that Verus
proves.

- `src/vault.rs`, `src/tlv.rs`, `src/bytes.rs`: the vault file format (fixed
  header, cleartext slot section, AES-256-GCM payload) and its parser.
- `src/slots/`: unlock slots that wrap the data encryption key under a
  password (Argon2id), a CTAP2 authenticator's hmac-secret, or Touch ID.
- `src/lifecycle.rs`: creating, unlocking and rewriting vault files.
- `src/session.rs`: the unlocked session and its rules (slot changes,
  reauthentication window, recovery guard, rollback).
- `src/crypto.rs`, `src/dek.rs`: the calls into argon2, aes-gcm, hmac/sha2
  and rand, each behind a small trusted wrapper with a stated contract.
- `src/framing.rs`, `src/ipc.rs`, `src/handlers.rs`, `src/cli.rs`: the local
  socket protocol between the command-line client and the desktop app, the
  replies, and the script-friendly output.

`app/` is the `kenv` program around the library: argument parsing, password
prompts, files, the socket client and server, and the JSON form of the
payload. `tests/` exercises the library on concrete values.
