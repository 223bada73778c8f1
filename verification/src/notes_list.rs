//! The list of notes and the operations on it.

use crate::note::{Note, NoteDate, NoteId};
use crate::text::{contains_chars, lowercase_chars, matches_key, search_key, make_search_key};
use vstd::prelude::*;

verus! {

/// Where the list is stored when no other path is given.
pub const DEFAULT_DATABASE_PATH: &'static str = "database.json";

/// What an operation on the list can fail with.
#[derive(Debug, PartialEq, Eq, Structural)]
pub enum NotesError {
    NoteNotFound,
}

/// The notes, in the order they were added.
#[derive(Debug)]
pub struct NotesList {
    pub notes: Vec<Note>,
}

/// Some note of `notes` has identifier `id`.
pub open spec fn has_id(notes: Seq<Note>, id: NoteId) -> bool {
    exists|i: int| 0 <= i < notes.len() && #[trigger] notes[i].id == id
}

/// `i` is the first position of `notes` whose note has identifier `id`.
pub open spec fn is_first_with_id(notes: Seq<Note>, id: NoteId, i: int) -> bool {
    &&& 0 <= i < notes.len()
    &&& notes[i].id == id
    &&& forall|j: int| 0 <= j < i ==> #[trigger] notes[j].id != id
}

/// `note` with its favourite flag flipped and its date set to `date`.
pub open spec fn favorite_toggled(note: Note, date: NoteDate) -> Note {
    Note {
        id: note.id,
        title: note.title,
        content: note.content,
        tags: note.tags,
        modification_date: date,
        favorite: !note.favorite,
    }
}

/// `note` with new text and tags, changed on `date`.
pub open spec fn rewritten(
    note: Note,
    title: String,
    content: String,
    tags: Vec<String>,
    date: NoteDate,
) -> Note {
    Note {
        id: note.id,
        title: title,
        content: content,
        tags: tags,
        modification_date: date,
        favorite: note.favorite,
    }
}

/// Whether a note is shown for the search key `key`: every note is shown for
/// the empty key; otherwise the lowered title or one lowered tag contains it.
pub open spec fn note_matches(note: Note, key: Seq<char>) -> bool {
    ||| key.len() == 0
    ||| contains_chars(lowercase_chars(note.title@), key)
    ||| exists|j: int|
        0 <= j < note.tags@.len() && contains_chars(
            lowercase_chars(#[trigger] note.tags@[j]@),
            key,
        )
}

/// The positions among the first `count` notes, in order, of the notes that
/// match `key` and whose favourite flag is `favorite`.
pub open spec fn matching_positions(
    notes: Seq<Note>,
    key: Seq<char>,
    favorite: bool,
    count: nat,
) -> Seq<usize>
    decreases count,
{
    if count == 0 {
        Seq::empty()
    } else {
        let earlier = matching_positions(notes, key, favorite, (count - 1) as nat);
        let note = notes[count - 1];
        if note_matches(note, key) && note.favorite == favorite {
            earlier.push((count - 1) as usize)
        } else {
            earlier
        }
    }
}

/// The path to use: `path` if one is given, else `DEFAULT_DATABASE_PATH`.
pub fn path_or_default(path: Option<&str>) -> (chosen: &str)
    ensures
        chosen@ == (match path {
            Some(p) => p@,
            None => DEFAULT_DATABASE_PATH@,
        }),
{
    match path {
        Some(p) => p,
        None => DEFAULT_DATABASE_PATH,
    }
}

/// Whether `note` is shown for the search key `key`.
fn note_matches_key(note: &Note, key: &str) -> (shown: bool)
    ensures
        shown == note_matches(*note, key@),
{
    if key.is_empty() {
        return true;
    }
    if matches_key(note.title.as_str(), key) {
        return true;
    }
    let count = note.tags.len();
    for j in 0..count
        invariant
            count == note.tags@.len(),
            forall|k: int|
                0 <= k < j ==> !contains_chars(lowercase_chars(#[trigger] note.tags@[k]@), key@),
    {
        if matches_key(note.tags[j].as_str(), key) {
            return true;
        }
    }
    false
}

impl NotesList {
    /// An empty list.
    pub fn new() -> (list: Self)
        ensures
            list.notes@ == Seq::<Note>::empty(),
    {
        NotesList { notes: Vec::new() }
    }

    /// Appends `note` at the end.
    pub fn add(&mut self, note: Note)
        ensures
            final(self).notes@ == old(self).notes@.push(note),
    {
        self.notes.push(note);
    }

    /// The first position of a note with identifier `id`, if there is one.
    pub fn position(&self, id: &NoteId) -> (found: Option<usize>)
        ensures
            match found {
                Some(i) => is_first_with_id(self.notes@, *id, i as int),
                None => !has_id(self.notes@, *id),
            },
    {
        let count = self.notes.len();
        for i in 0..count
            invariant
                count == self.notes@.len(),
                forall|j: int| 0 <= j < i ==> #[trigger] self.notes@[j].id != *id,
        {
            if self.notes[i].id == *id {
                return Some(i);
            }
        }
        None
    }

    /// Removes the first note with identifier `id`; fails, and changes
    /// nothing, when there is none.
    pub fn remove(&mut self, id: &NoteId) -> (result: Result<(), NotesError>)
        ensures
            result is Ok <==> has_id(old(self).notes@, *id),
            result is Ok ==> exists|i: int|
                is_first_with_id(old(self).notes@, *id, i) && final(self).notes@ == old(self).notes@.remove(i),
            result is Err ==> result == Err::<(), NotesError>(NotesError::NoteNotFound)
                && final(self).notes@ == old(self).notes@,
    {
        match self.position(id) {
            Some(index) => {
                self.notes.remove(index);
                Ok(())
            },
            None => Err(NotesError::NoteNotFound),
        }
    }

    /// Flips the favourite flag of the first note with identifier `id` and
    /// dates it `today`; returns whether there was such a note. The list is
    /// unchanged when there was none.
    pub fn toggle_favorite(&mut self, id: &NoteId, today: NoteDate) -> (found: bool)
        ensures
            found == has_id(old(self).notes@, *id),
            found ==> exists|i: int|
                is_first_with_id(old(self).notes@, *id, i) && final(self).notes@ == old(self).notes@.update(i, favorite_toggled(old(self).notes@[i], today)),
            !found ==> final(self).notes@ == old(self).notes@,
    {
        match self.position(id) {
            Some(index) => {
                let note = &mut self.notes[index];
                note.favorite = !note.favorite;
                note.modification_date = today;
                true
            },
            None => false,
        }
    }

    /// Gives the first note with identifier `id` a new title, content and
    /// tags, dated `today`; returns whether there was such a note. The list is
    /// unchanged when there was none.
    pub fn rewrite(
        &mut self,
        id: &NoteId,
        title: String,
        content: String,
        tags: Vec<String>,
        today: NoteDate,
    ) -> (found: bool)
        ensures
            found == has_id(old(self).notes@, *id),
            found ==> exists|i: int|
                is_first_with_id(old(self).notes@, *id, i) && final(self).notes@ == old(self).notes@.update(i, rewritten(old(self).notes@[i], title, content, tags, today)),
            !found ==> final(self).notes@ == old(self).notes@,
    {
        match self.position(id) {
            Some(index) => {
                let note = &mut self.notes[index];
                note.title = title;
                note.content = content;
                note.tags = tags;
                note.modification_date = today;
                true
            },
            None => false,
        }
    }

    /// The notes that a search for `query` shows, as positions in the list:
    /// first the favourites, then the others, each in list order. A note is
    /// shown when the query, trimmed and lowered, is empty or occurs in the
    /// note's lowered title or in one of its lowered tags.
    pub fn search(&self, query: &str) -> (shown: (Vec<usize>, Vec<usize>))
        ensures
            shown.0@ == matching_positions(self.notes@, search_key(query@), true, self.notes@.len()),
            shown.1@ == matching_positions(self.notes@, search_key(query@), false, self.notes@.len()),
    {
        let key = make_search_key(query);
        let mut favorites: Vec<usize> = Vec::new();
        let mut others: Vec<usize> = Vec::new();
        let count = self.notes.len();
        for i in 0..count
            invariant
                count == self.notes@.len(),
                key@ == search_key(query@),
                favorites@ == matching_positions(self.notes@, key@, true, i as nat),
                others@ == matching_positions(self.notes@, key@, false, i as nat),
        {
            let note = &self.notes[i];
            if note_matches_key(note, key.as_str()) {
                if note.favorite {
                    favorites.push(i);
                } else {
                    others.push(i);
                }
            }
        }
        (favorites, others)
    }
}

/// Law: a list has at most one first position for an identifier, so the
/// note that `remove`, `toggle_favorite` and `rewrite` act on is determined.
pub proof fn lemma_first_with_id_unique(notes: Seq<Note>, id: NoteId, i: int, j: int)
    requires
        is_first_with_id(notes, id, i),
        is_first_with_id(notes, id, j),
    ensures
        i == j,
{
    if i < j {
        assert(notes[i].id != id);
    } else if j < i {
        assert(notes[j].id != id);
    }
}

/// Law: removing a note just added, whose identifier was not in the list,
/// succeeds and gives back the list as it was.
pub proof fn lemma_remove_undoes_add(notes: Seq<Note>, note: Note)
    requires
        !has_id(notes, note.id),
    ensures
        has_id(notes.push(note), note.id),
        forall|i: int| #[trigger]
            is_first_with_id(notes.push(note), note.id, i) ==> notes.push(note).remove(i) == notes,
{
    let added = notes.push(note);
    let last = notes.len() as int;
    assert(added[last].id == note.id);
    assert(is_first_with_id(added, note.id, last)) by {
        assert forall|j: int| 0 <= j < last implies #[trigger] added[j].id != note.id by {
            assert(added[j] == notes[j]);
        }
    }
    assert forall|i: int| #[trigger] is_first_with_id(added, note.id, i) implies added.remove(i)
        == notes by {
        lemma_first_with_id_unique(added, note.id, i, last);
        assert(added.remove(last) =~= notes);
    }
}

/// Law: a search shows, among the first `count` notes, exactly those that
/// match the key and have the given favourite flag, each once, in list order.
pub proof fn lemma_matching_positions(notes: Seq<Note>, key: Seq<char>, favorite: bool, count: nat)
    requires
        count <= notes.len() <= usize::MAX,
    ensures
        forall|k: int|
            0 <= k < matching_positions(notes, key, favorite, count).len() ==> {
                let i = #[trigger] matching_positions(notes, key, favorite, count)[k];
                &&& i < count
                &&& note_matches(notes[i as int], key)
                &&& notes[i as int].favorite == favorite
            },
        forall|k1: int, k2: int|
            0 <= k1 < k2 < matching_positions(notes, key, favorite, count).len() ==> #[trigger] matching_positions(
                notes,
                key,
                favorite,
                count,
            )[k1] < #[trigger] matching_positions(notes, key, favorite, count)[k2],
        forall|i: int|
            0 <= i < count && note_matches(#[trigger] notes[i], key) && notes[i].favorite
                == favorite ==> matching_positions(notes, key, favorite, count).contains(
                i as usize,
            ),
    decreases count,
{
    if count > 0 {
        let earlier = matching_positions(notes, key, favorite, (count - 1) as nat);
        lemma_matching_positions(notes, key, favorite, (count - 1) as nat);
        let shown = matching_positions(notes, key, favorite, count);
        let last = (count - 1) as int;
        let takes_last = note_matches(notes[last], key) && notes[last].favorite == favorite;
        assert(takes_last ==> shown == earlier.push(last as usize));
        assert(!takes_last ==> shown == earlier);
        assert forall|k: int| 0 <= k < shown.len() implies {
            let i = #[trigger] shown[k];
            &&& i < count
            &&& note_matches(notes[i as int], key)
            &&& notes[i as int].favorite == favorite
        } by {
            if k < earlier.len() {
                assert(shown[k] == earlier[k]);
            }
        }
        assert forall|k1: int, k2: int| 0 <= k1 < k2 < shown.len() implies #[trigger] shown[k1]
            < #[trigger] shown[k2] by {
            assert(shown[k1] == earlier[k1]);
            if k2 < earlier.len() {
                assert(shown[k2] == earlier[k2]);
            } else {
                assert(shown[k2] == last as usize);
                assert(earlier[k1] < count - 1);
            }
        }
        assert forall|i: int|
            0 <= i < count && note_matches(#[trigger] notes[i], key) && notes[i].favorite
                == favorite implies shown.contains(i as usize) by {
            if i < last {
                assert(earlier.contains(i as usize));
                let k = choose|k: int| 0 <= k < earlier.len() && earlier[k] == i as usize;
                assert(shown[k] == i as usize);
            } else {
                assert(shown[shown.len() - 1] == i as usize);
            }
        }
    }
}

/// Law: an empty search key shows every note, the favourites in the first
/// list and the others in the second.
pub proof fn lemma_empty_key_shows_all(notes: Seq<Note>, i: int)
    requires
        0 <= i < notes.len() <= usize::MAX,
    ensures
        notes[i].favorite ==> matching_positions(notes, Seq::empty(), true, notes.len()).contains(
            i as usize,
        ),
        !notes[i].favorite ==> matching_positions(notes, Seq::empty(), false, notes.len()).contains(
            i as usize,
        ),
{
    lemma_matching_positions(notes, Seq::empty(), true, notes.len());
    lemma_matching_positions(notes, Seq::empty(), false, notes.len());
    assert(note_matches(notes[i], Seq::empty()));
}

/// Law: flipping the favourite flag twice gives the note back as it was but
/// for its date.
pub proof fn lemma_toggle_twice(note: Note, first: NoteDate, second: NoteDate)
    ensures
        favorite_toggled(favorite_toggled(note, first), second) == (Note {
            modification_date: second,
            ..note
        }),
{
}

/// Law: a search shows a note in the list for its favourite flag, and never
/// in the other, exactly when the key is empty, or the note's lowered title
/// contains the key, or the lowered tag at some position of its tags
/// contains the key.
pub proof fn lemma_search_shows_note(notes: Seq<Note>, key: Seq<char>, i: int)
    requires
        0 <= i < notes.len() <= usize::MAX,
    ensures
        matching_positions(notes, key, notes[i].favorite, notes.len()).contains(i as usize) <==> (
        key.len() == 0 || contains_chars(lowercase_chars(notes[i].title@), key) || exists|j: int|
            0 <= j < notes[i].tags@.len() && contains_chars(
                lowercase_chars(#[trigger] notes[i].tags@[j]@),
                key,
            )),
        !matching_positions(notes, key, !notes[i].favorite, notes.len()).contains(i as usize),
{
    let favorite = notes[i].favorite;
    lemma_matching_positions(notes, key, favorite, notes.len());
    lemma_matching_positions(notes, key, !favorite, notes.len());
    let shown = matching_positions(notes, key, favorite, notes.len());
    let hidden = matching_positions(notes, key, !favorite, notes.len());
    if shown.contains(i as usize) {
        let k = choose|k: int| 0 <= k < shown.len() && shown[k] == i as usize;
        assert(note_matches(notes[shown[k] as int], key));
    }
    if hidden.contains(i as usize) {
        let k = choose|k: int| 0 <= k < hidden.len() && hidden[k] == i as usize;
        assert(notes[hidden[k] as int].favorite == !favorite);
    }
}

} // verus!
