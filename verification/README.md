# zus

Two small tools around Ethereum wallets, with their logic verified by Verus.

- **Wallet forms** (`types`, `command`, `keys`, `view`, `error`): the state of a terminal app
  that fills in `cast wallet address | new | import` forms, the command line each form yields,
  what each key does, and what the screen shows (secrets masked).
- **Allowlist service** (`merkle`, `tree_types`, `api_error`, `hashing`): normalizes Ethereum
  addresses, builds SHA-256 Merkle trees over them, keeps the trees per campaign creator, and
  answers proof requests.
- `text` holds the string helpers both share.

`hashing` is the only place where outside crates (`rs_merkle`, `hex`, `uuid`) are called; its
items are trusted and every other function is proved against its contract.

`app/` is the terminal program (ratatui, crossterm, running `cast`) and the axum handlers of
the service: it reads input, draws, runs `cast` and holds the store's lock, and leaves the
rules to the library. The few checks it makes stand before library calls, where the
library's preconditions are tested at run time: a request it cannot meet fails there, as an
overflow or an internal error.
