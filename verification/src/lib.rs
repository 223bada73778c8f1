//! A list of notes: each note has a title, a body, tags, a favourite flag and
//! the date it was last changed. Besides the list itself, the crate holds the
//! rules of the editing dialog that the notes program shows: when a note can be
//! saved, how the tag field is read, which notes a search shows, and what each
//! button does to the list.

pub mod note;
pub mod session;
pub mod notes_list;
pub mod text;

pub use note::{Note, NoteDate, NoteId};
pub use notes_list::{NotesError, NotesList};
pub use session::{AppState, Inputs, Reaction};
