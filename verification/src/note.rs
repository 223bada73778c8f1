//! A single note, its identifier and the date it was last changed.

use chrono::Datelike;
use vstd::prelude::*;

verus! {

/// The identifier of a note: the 128 bits of a UUID, most significant first.
#[derive(Clone, Copy, Debug, PartialEq, Eq, Hash, Structural)]
pub struct NoteId(pub u128);

impl NoteId {
    /// The bits of a random (version 4) UUID: the version nibble is 4 and the
    /// two variant bits are `10`.
    pub open spec fn is_random_v4(self) -> bool {
        self.0 & 0xF000C000000000000000u128 == 0x40008000000000000000u128
    }
}

/// A day of the proleptic Gregorian calendar.
#[derive(Clone, Copy, Debug, PartialEq, Eq, Structural)]
pub struct NoteDate {
    pub year: i32,
    /// 1 to 12.
    pub month: u32,
    /// 1 to the number of days of the month.
    pub day: u32,
}

/// Gregorian leap years: every fourth year, but not every hundredth, but
/// every four hundredth.
pub open spec fn is_leap_year(year: int) -> bool {
    year % 4 == 0 && (year % 100 != 0 || year % 400 == 0)
}

/// The number of days of a month of a year.
pub open spec fn days_in_month(year: int, month: int) -> int {
    if month == 2 {
        if is_leap_year(year) {
            29
        } else {
            28
        }
    } else if month == 4 || month == 6 || month == 9 || month == 11 {
        30
    } else {
        31
    }
}

impl NoteDate {
    /// The fields name a day that exists.
    pub open spec fn is_valid(self) -> bool {
        &&& 1 <= self.month <= 12
        &&& 1 <= self.day <= days_in_month(self.year as int, self.month as int)
    }
}

/// A note of the list.
#[derive(Debug)]
pub struct Note {
    pub id: NoteId,
    pub title: String,
    pub content: String,
    pub tags: Vec<String>,
    pub modification_date: NoteDate,
    pub favorite: bool,
}

/// `uuid::Uuid::new_v4`, taken as its 128 bits. The bits are random; the
/// contract states only the version and variant bits that `new_v4` sets
/// on every outcome. (The call panics when the system gives no random bytes.)
#[verifier::external_body]
fn random_note_id() -> (id: NoteId)
    ensures
        id.is_random_v4(),
{
    NoteId(uuid::Uuid::new_v4().as_u128())
}

/// `chrono::Local::now().date_naive()`, taken as year, month and day. The date
/// depends on the clock and the time zone; the contract states only that it
/// is a day of the calendar, as every `NaiveDate` is. (The call panics when
/// the system clock is set before 1970.)
#[verifier::external_body]
pub(crate) fn local_today() -> (today: NoteDate)
    ensures
        today.is_valid(),
{
    let date = chrono::Local::now().date_naive();
    NoteDate { year: date.year(), month: date.month(), day: date.day() }
}

impl Note {
    /// A new note with a fresh random identifier, changed today.
    pub fn new(title: String, content: String, tags: Vec<String>, favorite: bool) -> (note: Note)
        ensures
            note.title == title,
            note.content == content,
            note.tags == tags,
            note.favorite == favorite,
            note.id.is_random_v4(),
            note.modification_date.is_valid(),
    {
        Note::with_date(title, content, tags, favorite, local_today())
    }

    /// A new note with a fresh random identifier, changed on `date`.
    pub fn with_date(
        title: String,
        content: String,
        tags: Vec<String>,
        favorite: bool,
        date: NoteDate,
    ) -> (note: Note)
        ensures
            note.title == title,
            note.content == content,
            note.tags == tags,
            note.favorite == favorite,
            note.id.is_random_v4(),
            note.modification_date == date,
    {
        Note { id: random_note_id(), title, content, tags, modification_date: date, favorite }
    }
}

/// The local calendar date, read anew each time it is asked for. It keeps,
/// as ghost state, every date it has given, in order, so that contracts can
/// say which reading a note was dated with.
pub struct Clock {
    readings: Ghost<Seq<NoteDate>>,
}

impl Clock {
    /// The dates this clock has given, oldest first.
    pub closed spec fn readings(&self) -> Seq<NoteDate> {
        self.readings@
    }

    /// A clock that has given no date yet.
    pub fn new() -> (clock: Clock)
        ensures
            clock.readings() == Seq::<NoteDate>::empty(),
    {
        Clock { readings: Ghost(Seq::empty()) }
    }

    /// Today's local date; it is added to the readings.
    pub fn today(&mut self) -> (today: NoteDate)
        ensures
            today.is_valid(),
            final(self).readings() == old(self).readings().push(today),
    {
        let today = local_today();
        self.readings = Ghost(self.readings@.push(today));
        today
    }
}

} // verus!
