# lpm

A terminal password manager. Passwords are kept in `passfile.lpm`, sealed with
AES-256-GCM under the SHA-256 digest of a master password; a server mode shares
the passfile with remote clients over an RSA-protected channel.

The library (`src/`) is verified with Verus:

- `text` — trimming, prefix tests, splitting and joining on spaces, stated over `Seq<char>`.
- `serde` — the stored records and their bincode encoding; decoding gives back what encoding wrote.
- `crypto` — the master key and the passfile format (nonce, then AES-256-GCM); opening gives back what sealing wrote.
- `commands` — adding, removing, copying and listing passwords, the help/configuration/author tables, saving.
- `home`, `arguments`, `utils` — what a prompt line, the command line and the creation prompt ask for; opening the passfile.
- `config` — the configuration's content, paths and defaults.
- `lpm_client`, `lpm_server`, `channel` — the remote protocol's requests and replies and its RSA channel.
- `table` — rendering through `tabled`.

`app/` is the program around it: terminal, files, clipboard, TOML, sockets.
