# Marlin

Marlin is a coding assistant for the terminal. This crate is its verified core:
Verus proves every function of `src/` against its contract.

- `src/` — the library. It decides; it touches neither files nor the network.
  - Texts and numbers: `text`, `split`, `number`, `paths`, `sorting`, `table`,
    `terms`, `dup`, `shown`, `json`.
  - The code index: `symbols`, `index`, `search`, `refresh`.
  - The engine: `config`, `message`, `engine`, `prompt`, `budget`, `agent` (the
    order of a turn), `turn`, `tools`, `calls`, `net`, `stall`, `compact`, `route`,
    `transcript`, `settings`, and the commands in `command`, `provider_command`,
    `file_command`, `list_command`, `help`.
  - The front end: `ui` (what engine and front end say to each other), `chat`,
    `screen`, `complete`.
  - `outbox`: what a step leaves to be done outside, in order.
- `app/` — ordinary Rust around it: the loop of the engine, the commands that reach
  outside, the index on disk, the terminal. It performs what the library asks for.
- `tests/` — the library at work on concrete values.

Each type that holds texts or lists has a model (`…View` or `…Model`), and contracts
speak of models. Properties of the library as a whole are the public proof functions
whose names begin with `law_`.
