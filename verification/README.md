# easy-ssh-tui

A terminal interface for the SSH keys in `~/.ssh`: list and inspect key pairs, copy a public
key, create ed25519 keys, import `.pem` files (with passphrase support through `ssh-add`), edit
`~/.ssh/config`, prune `~/.ssh/known_hosts`, upload a public key to GitHub or GitLab, and filter
keys by name.

The logic is a library verified with Verus; the program around it only reads keys, files and
directories, runs `ssh-keygen`/`ssh-add`, talks HTTP and draws.

## Layout

- `src/` — the verified library.
  - `text.rs`: characters, trimming and line splitting as `str::trim` and `str::lines` do them.
  - `config.rs`: reading and writing `~/.ssh/config` entries; `config_laws.rs`: writing then
    reading gives the entries back, and what adding, removing and replacing an entry does.
  - `known_hosts.rs`: listing and deleting `known_hosts` entries; `known_hosts_laws.rs`: a
    deleted entry is gone from the listing and the others stay.
  - `keys.rs`, `order.rs`: key pairs and their stable sort by name.
  - `export.rs`: the upload requests and how the answer is reported.
  - `app.rs`: the interface state and every change a key press makes to it, with outside work
    (files, processes, network, clipboard) split into a request and an outcome;
    `app_laws.rs`: properties of navigation, typing and search.
  - `keymap.rs`: which key does what in each mode.
  - `display.rs`, `commands.rs`: texts shown and the command lines run.
  - `stdlib.rs`: the few standard-library calls whose results are taken on trust.
- `tests/` — tests of the library.
- `app/` — the terminal program.
