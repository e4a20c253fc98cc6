# cyber_note

The verified core of `a`, a terminal tool that keeps a yearly note encrypted with a GPG
public key, backs files up to a GitHub Gist, keeps a ledger of encrypted files and
computes TOTP codes.

- `src/` is the library, written and proved with Verus: command-line decisions
  (`cli`, `commands`, `args`), GPG argument lists and key checks (`encrypt`), the Gist
  requests and how their answers are read (`gist`), the JSON bodies sent to the Gist and
  the web client (`json`), the key ledger (`ledger`), TOTP codes and the secret store with
  its JSON form (`totp`), file listings and encryption choices (`catalog`), the setup
  wizard's decisions (`setup`), the web server's request handling (`web`, `dashboard`),
  text helpers (`text`) and the configuration paths and sources (`lib.rs`).
- `app/` is the program around it: files, processes, the network, the terminal.
- `tests/` runs the library on concrete values.
