# dualpane

The core of a two-pane (local / remote) file transfer client, written in
Verus: every decision the panels take is a verified function with a
contract, and the properties that span several of them are proved as
lemmas.

- `src/` — the verified library:
  - `paths`: remote parent directories, joining a directory and a file
    name, the local parent (through `std::path`), prefix tests;
  - `sizes`, `times`: the size and modification-time columns;
  - `listing`: the order of the file tables (directories first, by name,
    stable) and the ".." entry;
  - `drag`: drag-and-drop payloads;
  - `state`, `panes`, `toolbar`, `tree`, `connect`: the state of the
    panels and what each user action does to it;
  - `transfer`: the transfer queue, the registry of live connections and
    the worker's decisions;
  - `domain`, `ids`, `text`: the values everything works on.
- `tests/` — tests of the library on concrete values.
- `app/` — the egui panels, the local file system, the background worker
  and the connection plumbing; it performs the I/O and hands the results
  to the library.
