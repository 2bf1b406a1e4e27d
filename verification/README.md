# zcash_extensions — the `eth_bridge` transparent Zcash extension, verified

The library (`src/`, checked by Verus) holds the rules of the `eth_bridge` TZE:

- `transparent/eth_bridge/modes/{create,deposit,stf}.rs` — the payload encodings of each
  mode's precondition and witness, and each mode's verification rules, with their
  round-trip and acceptance lemmas;
- `precondition.rs`, `witness.rs` — the mode-dispatching enums and their payloads;
- `program.rs` — the program that picks the mode's rules;
- `builder.rs` — the builder wrapper and its decisions about which witness spends an output;
- `context.rs` — the parts of a transaction that the rules read;
- `encoding.rs` — little-endian integers and byte arrays;
- `amount.rs`, `script.rs` — calls into `zcash_protocol` (`Zatoshis`) and
  `zcash_transparent` (output recipients);
- `error.rs` — the error type and its messages.

`app/` connects the library to the `zcash_primitives` extension traits and transaction
builder, and gives the errors `Display`.
