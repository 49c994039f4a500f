# nscb_desktop

The logic of a desktop and Android shell around the NSCB backend, verified with
Verus, and the shell itself.

- `src/` is the verified library. It decides: which backend executable belongs to a
  platform, what is accepted as one, how an operation is started, followed and
  stopped, how Android documents are copied into reach of the embedded backend, what
  the settings file holds. It hands out actions and takes back what came of them.
- `src/standard.rs` and `src/outside.rs` hold the functions of the standard library
  and of other crates whose contracts are taken on trust.
- `tests/` runs the library on concrete values.
- `app/` is the Tauri application: windows, files, processes and connections.
