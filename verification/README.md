# akc

A minimal encrypted secret store: a single portable file holding key/value
secrets. The file is `salt(32) + nonce(12) + AES-256-GCM ciphertext` of a JSON
store, with the key derived from the password by Argon2id (64 MiB, t=3, p=4).

The library in `src/` is written in Verus and verified:

- `crypto`: the payload format; encryption and decryption, proved to round-trip.
- `order`: the order of keys (UTF-8 byte order, as `String`'s `Ord`).
- `storage`: the keychain (a map kept as sorted entries), file size limits.
- `text`: Unicode whitespace, trimming and splitting.
- `session`: parsing and carrying out the lines of the interactive mode.
- `password`: the password dialogue as a state machine.
- `cli`: command routing and backup file names.
- `upgrade`: release addresses, version decisions, checksum verification.

`app/main.rs` is the command-line program: argument parsing, prompts, files,
JSON, network and printing around the library.

```
akc init secrets.akc                  # prompts for password (twice)
akc set secrets.akc api_key sk-123    # add or update
akc get secrets.akc api_key           # print value
akc list secrets.akc                  # list key names only
akc delete secrets.akc api_key
akc secrets.akc                       # interactive mode
akc upgrade                           # self-upgrade from GitHub releases
```
