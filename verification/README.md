# baofzf

A fuzzy finder for the secrets of an OpenBao / HashiCorp Vault key-value
mount (layouts 1 and 2): it lists every secret under a path, lets the user
pick one with skim, then shows it as a table (Enter) or opens it in the
default editor and writes it back (Ctrl-E).

Layout:

- `src/` is the verified library (Verus):
  - `version.rs`: the mount layout named by `-k/--kvv`;
  - `walk.rs`: the recursive listing as a state machine (`SecretWalk`):
    after each folder listing it says which folder to list next, and at the
    end which secrets it found; `walk_laws.rs` proves that a run against a
    server returns exactly the recursively listed secrets, depth first, and
    ends;
  - `secret.rs`: reading and editing one secret (JSON through `serde_json`,
    tables through `json_to_table`);
  - `finder.rs`: how the finder ended, the chosen secret and what the closing key
    asks for;
  - `client.rs`, `text.rs`: client settings from `BAO_*`/`VAULT_*`
    variables and the token file;
  - `errors.rs`: the messages shown for failures.
- `app/` is the program around it: arguments, environment, files, the
  requests to the server (`vaultrs`), the editor and the finder UI.
- `tests/` runs the library, with an in-memory mount standing in for the
  server.
