//! The state of the notes program between two frames, and what each button
//! of its window does to it.

use crate::note::{Clock, Note, NoteDate, NoteId};
use crate::notes_list::{favorite_toggled, has_id, is_first_with_id, NotesList};
use crate::text::{
    is_blank, is_blank_text, is_clean_tag, join_tags, joined, lemma_joined_tags_read_back,
    parse_tags, parsed_tags, tag_separator, views,
};
use vstd::prelude::*;

verus! {

/// What the program does with the dialog's three inputs (title, content,
/// tags) after an event.
#[derive(Debug, PartialEq, Eq)]
pub enum Inputs {
    Keep,
    Clear,
    Fill { title: String, content: String, tags: String },
}

/// What the program does after an event: whether it stores the list, and
/// what it does with the dialog's inputs.
#[derive(Debug, PartialEq, Eq)]
pub struct Reaction {
    pub persist: bool,
    pub inputs: Inputs,
}

/// The notes, whether the dialog is open, and which note it edits (none
/// while it makes a new one).
pub struct AppState {
    notes_list: NotesList,
    show_dialog: bool,
    editing_note: Option<NoteId>,
    clock: Clock,
}

/// `note` is what the dialog's inputs make of a note: the text as typed, the
/// tags as the tag field reads, a date of the calendar.
pub open spec fn made_from_inputs(
    note: Note,
    title: Seq<char>,
    content: Seq<char>,
    tags_field: Seq<char>,
) -> bool {
    &&& note.title@ == title
    &&& note.content@ == content
    &&& views(note.tags@) == parsed_tags(tags_field)
    &&& note.modification_date.is_valid()
}

impl AppState {
    /// The notes.
    pub closed spec fn notes(&self) -> Seq<Note> {
        self.notes_list.notes@
    }

    /// Whether the dialog is open.
    pub closed spec fn dialog_open(&self) -> bool {
        self.show_dialog
    }

    /// The note that the dialog edits, if any.
    pub closed spec fn editing(&self) -> Option<NoteId> {
        self.editing_note
    }

    /// The dates the state has read from the clock, oldest first.
    pub closed spec fn clock_readings(&self) -> Seq<NoteDate> {
        self.clock.readings()
    }

    /// The note that the dialog edits is in the list.
    pub open spec fn wf(&self) -> bool {
        match self.editing() {
            Some(id) => has_id(self.notes(), id),
            None => true,
        }
    }

    /// The state at start: the given notes, the dialog closed.
    pub fn new(notes_list: NotesList) -> (state: Self)
        ensures
            state.wf(),
            state.notes() == notes_list.notes@,
            !state.dialog_open(),
            state.editing() is None,
            state.clock_readings() == Seq::<NoteDate>::empty(),
    {
        AppState { notes_list, show_dialog: false, editing_note: None, clock: Clock::new() }
    }

    /// The notes.
    pub fn notes_list(&self) -> (list: &NotesList)
        ensures
            list.notes@ == self.notes(),
    {
        &self.notes_list
    }

    /// Whether the dialog is open.
    pub fn show_dialog(&self) -> (open: bool)
        ensures
            open == self.dialog_open(),
    {
        self.show_dialog
    }

    /// The note that the dialog edits, if any; it is always in the list.
    pub fn editing_note(&self) -> (id: Option<NoteId>)
        requires
            self.wf(),
        ensures
            id == self.editing(),
            id matches Some(i) ==> has_id(self.notes(), i),
    {
        self.editing_note
    }

    /// Whether the note that the dialog edits is a favourite (false when the
    /// dialog makes a new note).
    pub fn editing_favorite(&self) -> (favorite: bool)
        requires
            self.wf(),
        ensures
            favorite == (match self.editing() {
                Some(id) => exists|i: int|
                    is_first_with_id(self.notes(), id, i) && #[trigger] self.notes()[i].favorite,
                None => false,
            }),
    {
        match self.editing_note {
            Some(id) => match self.notes_list.position(&id) {
                Some(i) => self.notes_list.notes[i].favorite,
                None => false,
            },
            None => false,
        }
    }

    /// Whether the save button takes the inputs: the dialog is open, and
    /// neither the title nor the content is blank.
    pub fn can_save(&self, title: &str, content: &str) -> (savable: bool)
        ensures
            savable == (self.dialog_open() && !is_blank(title@) && !is_blank(content@)),
    {
        self.show_dialog && !(is_blank_text(title) || is_blank_text(content))
    }

    /// The "new note" button: opens the dialog.
    pub fn open_dialog(&mut self)
        requires
            old(self).wf(),
        ensures
            final(self).wf(),
            final(self).dialog_open(),
            final(self).notes() == old(self).notes(),
            final(self).editing() == old(self).editing(),
            final(self).clock_readings() == old(self).clock_readings(),
    {
        self.show_dialog = true;
    }

    /// A note of the list clicked: the dialog opens on it, its inputs filled
    /// with the note's title, content and tags. A position past the end of
    /// the list changes nothing.
    pub fn edit_note(&mut self, index: usize) -> (reaction: Reaction)
        requires
            old(self).wf(),
        ensures
            final(self).wf(),
            final(self).notes() == old(self).notes(),
            final(self).clock_readings() == old(self).clock_readings(),
            !reaction.persist,
            index < old(self).notes().len() ==> {
                let note = old(self).notes()[index as int];
                &&& final(self).dialog_open()
                &&& final(self).editing() == Some(note.id)
                &&& reaction.inputs matches Inputs::Fill { title, content, tags } && title@
                    == note.title@ && content@ == note.content@ && tags@ == joined(
                    views(note.tags@),
                    tag_separator(),
                )
            },
            index >= old(self).notes().len() ==> {
                &&& final(self).dialog_open() == old(self).dialog_open()
                &&& final(self).editing() == old(self).editing()
                &&& final(self).clock_readings() == old(self).clock_readings()
                &&& reaction.inputs is Keep
            },
    {
        if index < self.notes_list.notes.len() {
            let note = &self.notes_list.notes[index];
            let inputs = Inputs::Fill {
                title: note.title.clone(),
                content: note.content.clone(),
                tags: join_tags(&note.tags),
            };
            self.show_dialog = true;
            self.editing_note = Some(note.id);
            Reaction { persist: false, inputs }
        } else {
            Reaction { persist: false, inputs: Inputs::Keep }
        }
    }

    /// The star of the dialog: flips the favourite flag of the note being
    /// edited and dates it today; the list is then stored. Without a note
    /// being edited nothing happens.
    pub fn toggle_favorite(&mut self) -> (reaction: Reaction)
        requires
            old(self).wf(),
        ensures
            final(self).wf(),
            final(self).dialog_open() == old(self).dialog_open(),
            final(self).editing() == old(self).editing(),
            reaction.inputs is Keep,
            reaction.persist == old(self).editing() is Some,
            match old(self).editing() {
                Some(id) => exists|i: int, date: NoteDate|
                    is_first_with_id(old(self).notes(), id, i) && date.is_valid() && final(self).notes() == old(self).notes().update(
                        i,
                        favorite_toggled(old(self).notes()[i], date),
                    ),
                None => final(self).notes() == old(self).notes(),
            },
            match old(self).editing() {
                Some(id) => exists|i: int|
                    is_first_with_id(old(self).notes(), id, i) && final(self).clock_readings()
                        == old(self).clock_readings().push(final(self).notes()[i].modification_date)
                        && final(self).notes() == old(self).notes().update(
                        i,
                        favorite_toggled(old(self).notes()[i], final(self).notes()[i].modification_date),
                    ),
                None => final(self).clock_readings() == old(self).clock_readings(),
            },
    {
        match self.editing_note {
            Some(id) => {
                let today = self.clock.today();
                let found = self.notes_list.toggle_favorite(&id, today);
                proof {
                    let i = choose|i: int|
                        is_first_with_id(old(self).notes(), id, i) && self.notes_list.notes@
                            == old(self).notes().update(
                            i,
                            favorite_toggled(old(self).notes()[i], today),
                        );
                    assert(self.notes_list.notes@[i].id == id);
                    assert(self.notes_list.notes@[i].modification_date == today);
                }
                Reaction { persist: true, inputs: Inputs::Keep }
            },
            None => Reaction { persist: false, inputs: Inputs::Keep },
        }
    }

    /// The remove button: removes the note being edited, closes the dialog
    /// and clears its inputs; the list is stored when a note was removed.
    pub fn remove_note(&mut self) -> (reaction: Reaction)
        requires
            old(self).wf(),
        ensures
            final(self).wf(),
            !final(self).dialog_open(),
            final(self).editing() is None,
            final(self).clock_readings() == old(self).clock_readings(),
            reaction.inputs is Clear,
            reaction.persist == old(self).editing() is Some,
            match old(self).editing() {
                Some(id) => exists|i: int|
                    is_first_with_id(old(self).notes(), id, i) && final(self).notes() == old(self).notes().remove(i),
                None => final(self).notes() == old(self).notes(),
            },
    {
        let persist = match self.editing_note {
            Some(id) => {
                let removed = self.notes_list.remove(&id);
                assert(removed is Ok);
                true
            },
            None => false,
        };
        self.show_dialog = false;
        self.editing_note = None;
        Reaction { persist, inputs: Inputs::Clear }
    }

    /// The close button: closes the dialog and clears its inputs.
    pub fn cancel(&mut self) -> (reaction: Reaction)
        requires
            old(self).wf(),
        ensures
            final(self).wf(),
            final(self).notes() == old(self).notes(),
            !final(self).dialog_open(),
            final(self).editing() is None,
            final(self).clock_readings() == old(self).clock_readings(),
            !reaction.persist,
            reaction.inputs is Clear,
    {
        self.show_dialog = false;
        self.editing_note = None;
        Reaction { persist: false, inputs: Inputs::Clear }
    }

    /// The save button. With a blank title or content nothing happens.
    /// Otherwise the note being edited gets the inputs (a new note is added
    /// when none is being edited), the list is stored, and the dialog closes
    /// with its inputs cleared.
    pub fn save_note(&mut self, title: &str, content: &str, tags: &str) -> (reaction: Reaction)
        requires
            old(self).wf(),
        ensures
            final(self).wf(),
            reaction.persist == (!is_blank(title@) && !is_blank(content@)),
            !reaction.persist ==> {
                &&& final(self).notes() == old(self).notes()
                &&& final(self).dialog_open() == old(self).dialog_open()
                &&& final(self).editing() == old(self).editing()
                &&& final(self).clock_readings() == old(self).clock_readings()
                &&& reaction.inputs is Keep
            },
            reaction.persist ==> {
                &&& !final(self).dialog_open()
                &&& final(self).editing() is None
                &&& reaction.inputs is Clear
                &&& match old(self).editing() {
                    Some(id) => exists|i: int, note: Note|
                        is_first_with_id(old(self).notes(), id, i) && final(self).notes() == old(self).notes().update(i, note) && made_from_inputs(
                            note,
                            title@,
                            content@,
                            tags@,
                        ) && note.id == id && note.favorite == old(self).notes()[i].favorite,
                    None => {
                        &&& final(self).notes().len() == old(self).notes().len() + 1
                        &&& final(self).notes().drop_last() == old(self).notes()
                        &&& made_from_inputs(final(self).notes().last(), title@, content@, tags@)
                        &&& !final(self).notes().last().favorite
                        &&& final(self).notes().last().id.is_random_v4()
                    },
                }
                &&& match old(self).editing() {
                    Some(id) => exists|i: int|
                        is_first_with_id(old(self).notes(), id, i) && final(self).clock_readings()
                            == old(self).clock_readings().push(
                            final(self).notes()[i].modification_date,
                        ),
                    None => final(self).clock_readings() == old(self).clock_readings().push(
                        final(self).notes().last().modification_date,
                    ),
                }
            },
    {
        let tag_list = parse_tags(tags);
        if is_blank_text(title) || is_blank_text(content) {
            return Reaction { persist: false, inputs: Inputs::Keep };
        }
        match self.editing_note {
            Some(id) => {
                let today = self.clock.today();
                let found = self.notes_list.rewrite(
                    &id,
                    title.to_owned(),
                    content.to_owned(),
                    tag_list,
                    today,
                );
                assert(found);
            },
            None => {
                let today = self.clock.today();
                self.notes_list.add(
                    Note::with_date(title.to_owned(), content.to_owned(), tag_list, false, today),
                );
                assert(self.notes_list.notes@.drop_last() == old(self).notes());
            },
        }
        self.show_dialog = false;
        self.editing_note = None;
        Reaction { persist: true, inputs: Inputs::Clear }
    }
}

/// Law: a note opened in the dialog (see `AppState::edit_note`) and saved
/// with its inputs as they were filled (see `AppState::save_note`) keeps its
/// title, content and tags, when its tags are clean, as every tag read from
/// a tag field is.
pub proof fn lemma_saving_filled_inputs_keeps_note(note: Note, saved: Note)
    requires
        forall|k: int| 0 <= k < note.tags@.len() ==> is_clean_tag(#[trigger] note.tags@[k]@),
        made_from_inputs(
            saved,
            note.title@,
            note.content@,
            joined(views(note.tags@), tag_separator()),
        ),
    ensures
        saved.title@ == note.title@,
        saved.content@ == note.content@,
        views(saved.tags@) == views(note.tags@),
{
    let tags = views(note.tags@);
    assert forall|k: int| 0 <= k < tags.len() implies is_clean_tag(#[trigger] tags[k]) by {
        assert(tags[k] == note.tags@[k]@);
    }
    lemma_joined_tags_read_back(tags);
}

} // verus!
