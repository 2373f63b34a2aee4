# codex_toolkit

Building blocks of a coding-agent toolkit, written in Rust and verified with
Verus: adding marketplaces of plugins, watching commands, files and background
terminals, and choosing the authentication of model providers.

- `src/` is the library. Its functions have contracts that Verus proves; the few
  declarations that stand for outside code are believed, as said below. Public
  proof functions named `law_*` state what holds across functions.
- `tests/` runs the library on concrete values.
- `app/` is ordinary Rust around the library: the command line, files,
  processes, timers and the network. Where a procedure alternates between
  decisions and outside work, the library holds the decisions as a flow: it names
  the next action, and `app/` performs it and hands the answer back.

The library relies on the `toml` crate to read the user's configuration. What it
takes on trust of that crate, and of the standard library, is written down where
it is used, in `src/marketplace_config.rs` and `src/text.rs`. A `Url` of the `url`
crate is carried through and never looked into.
