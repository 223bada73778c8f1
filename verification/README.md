# notes_app

A notes program: a list of notes with titles, contents, tags, a favourite
flag and a modification date, shown in a window with a search bar and an
editing dialog.

- `src/` is the library, verified with Verus: the list of notes
  (`notes_list.rs`), a single note with its identifier and date (`note.rs`),
  the text rules of the dialog and the search (`text.rs`), and what each
  button of the window does to the state (`session.rs`). Proof functions
  named `lemma_*` state the laws that hold across these operations.
- `app/` is the window program (ply-engine), and the JSON file that stores
  the list (`app/storage.rs`).
- `tests/` runs the library on concrete values.
