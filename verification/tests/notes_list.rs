use chrono::Datelike;
use notes_app::notes_list::{path_or_default, DEFAULT_DATABASE_PATH};
use notes_app::{Note, NoteDate, NoteId, NotesError, NotesList};
use uuid::Uuid;

fn create_sample_note() -> Note {
    Note::new(
        "Test title".to_string(),
        "Test content".to_string(),
        vec!["tag1".into(), "tag2".into()],
        false,
    )
}

fn note_with(id: u128, title: &str, tags: &[&str], favorite: bool) -> Note {
    Note {
        id: NoteId(id),
        title: title.to_string(),
        content: format!("content of {}", title),
        tags: tags.iter().map(|t| t.to_string()).collect(),
        modification_date: NoteDate { year: 2024, month: 2, day: 29 },
        favorite,
    }
}

#[test]
fn test_note_fields() {
    let note = create_sample_note();

    assert_eq!(note.title, "Test title");
    assert_eq!(note.content, "Test content");
    assert_eq!(note.tags.len(), 2);
    assert!(!note.favorite);
}

#[test]
fn add_note() {
    let mut list = NotesList::new();

    list.add(create_sample_note());

    assert_eq!(list.notes.len(), 1);
}

#[test]
fn remove_note() {
    let mut list = NotesList::new();

    list.add(create_sample_note());
    let id = list.notes[0].id;

    list.remove(&id).unwrap();

    assert_eq!(list.notes.len(), 0);
}

#[test]
fn remove_non_existing_note() {
    let mut list = NotesList::new();
    let random_id = NoteId(Uuid::new_v4().as_u128());

    let result = list.remove(&random_id);

    assert!(result.is_err());
}

#[test]
fn new_note_has_random_uuid_bits() {
    let note = create_sample_note();
    let bits = note.id.0;
    assert_eq!(bits & 0xF000C000000000000000u128, 0x40008000000000000000u128);
    assert_eq!(Uuid::from_u128(bits).get_version_num(), 4);
    let other = create_sample_note();
    assert_ne!(note.id, other.id);
}

#[test]
fn new_note_is_dated_today() {
    let note = create_sample_note();
    let before = chrono::Local::now().date_naive();
    let date = note.modification_date;
    let after = chrono::Local::now().date_naive();
    assert!((1..=12).contains(&date.month));
    assert!((1..=31).contains(&date.day));
    let same = |d: chrono::NaiveDate| d.year() == date.year && d.month() == date.month && d.day() == date.day;
    assert!(same(before) || same(after));
}

#[test]
fn new_list_is_empty() {
    assert!(NotesList::new().notes.is_empty());
}

#[test]
fn add_appends_at_the_end() {
    let mut list = NotesList::new();
    list.add(note_with(1, "a", &[], false));
    list.add(note_with(2, "b", &[], false));
    assert_eq!(list.notes[0].id, NoteId(1));
    assert_eq!(list.notes[1].id, NoteId(2));
}

#[test]
fn remove_takes_the_first_match_only() {
    let mut list = NotesList::new();
    list.add(note_with(1, "a", &[], false));
    list.add(note_with(2, "b", &[], false));
    list.add(note_with(1, "c", &[], false));
    assert_eq!(list.remove(&NoteId(1)), Ok(()));
    assert_eq!(list.notes.len(), 2);
    assert_eq!(list.notes[0].title, "b");
    assert_eq!(list.notes[1].title, "c");
}

#[test]
fn remove_missing_changes_nothing() {
    let mut list = NotesList::new();
    list.add(note_with(1, "a", &[], false));
    assert_eq!(list.remove(&NoteId(9)), Err(NotesError::NoteNotFound));
    assert_eq!(list.notes.len(), 1);
    assert_eq!(list.notes[0].title, "a");
}

#[test]
fn remove_undoes_add() {
    let mut list = NotesList::new();
    list.add(note_with(1, "a", &[], false));
    list.add(note_with(2, "b", &[], false));
    list.remove(&NoteId(2)).unwrap();
    assert_eq!(list.notes.len(), 1);
    assert_eq!(list.notes[0].id, NoteId(1));
}

#[test]
fn position_finds_first() {
    let mut list = NotesList::new();
    list.add(note_with(7, "a", &[], false));
    list.add(note_with(8, "b", &[], false));
    list.add(note_with(8, "c", &[], false));
    assert_eq!(list.position(&NoteId(8)), Some(1));
    assert_eq!(list.position(&NoteId(9)), None);
}

#[test]
fn toggle_favorite_flips_and_dates() {
    let mut list = NotesList::new();
    list.add(note_with(1, "a", &[], false));
    let today = NoteDate { year: 2025, month: 12, day: 31 };
    assert!(list.toggle_favorite(&NoteId(1), today));
    assert!(list.notes[0].favorite);
    assert_eq!(list.notes[0].modification_date, today);
    assert!(list.toggle_favorite(&NoteId(1), today));
    assert!(!list.notes[0].favorite);
    assert!(!list.toggle_favorite(&NoteId(2), today));
}

#[test]
fn rewrite_changes_text_only() {
    let mut list = NotesList::new();
    list.add(note_with(1, "a", &["x"], true));
    let today = NoteDate { year: 2023, month: 1, day: 1 };
    assert!(list.rewrite(&NoteId(1), "new".to_string(), "body".to_string(), vec!["y".to_string()], today));
    let n = &list.notes[0];
    assert_eq!(n.id, NoteId(1));
    assert_eq!(n.title, "new");
    assert_eq!(n.content, "body");
    assert_eq!(n.tags, vec!["y".to_string()]);
    assert!(n.favorite);
    assert_eq!(n.modification_date, today);
    assert!(!list.rewrite(&NoteId(3), "z".to_string(), "z".to_string(), vec![], today));
    assert_eq!(list.notes[0].title, "new");
}

#[test]
fn search_empty_query_shows_all() {
    let mut list = NotesList::new();
    list.add(note_with(1, "a", &[], false));
    list.add(note_with(2, "b", &[], true));
    list.add(note_with(3, "c", &[], false));
    assert_eq!(list.search("   "), (vec![1], vec![0, 2]));
    assert_eq!(list.search(""), (vec![1], vec![0, 2]));
}

#[test]
fn search_ignores_case_and_surrounding_space() {
    let mut list = NotesList::new();
    list.add(note_with(1, "Shopping List", &[], false));
    list.add(note_with(2, "Ideas", &["Work", "HOME"], true));
    list.add(note_with(3, "Other", &["garden"], false));
    assert_eq!(list.search("  LIST "), (vec![], vec![0]));
    assert_eq!(list.search("home"), (vec![1], vec![]));
    assert_eq!(list.search("o"), (vec![1], vec![0, 2]));
    assert_eq!(list.search("zzz"), (vec![], vec![]));
}

#[test]
fn search_does_not_look_at_content() {
    let mut list = NotesList::new();
    list.add(note_with(1, "a", &[], false));
    assert_eq!(list.search("content"), (vec![], vec![]));
}

#[test]
fn path_defaults_to_database_file() {
    assert_eq!(path_or_default(None), "database.json");
    assert_eq!(DEFAULT_DATABASE_PATH, "database.json");
    assert_eq!(path_or_default(Some("other.json")), "other.json");
}
