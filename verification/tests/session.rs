use notes_app::{AppState, Inputs, Note, NoteDate, NoteId, NotesList, Reaction};

fn note_with(id: u128, title: &str, tags: &[&str], favorite: bool) -> Note {
    Note {
        id: NoteId(id),
        title: title.to_string(),
        content: format!("content of {}", title),
        tags: tags.iter().map(|t| t.to_string()).collect(),
        modification_date: NoteDate { year: 2020, month: 5, day: 17 },
        favorite,
    }
}

fn sample_state() -> AppState {
    let mut list = NotesList::new();
    list.add(note_with(1, "first", &["a", "b"], false));
    list.add(note_with(2, "second", &[], true));
    AppState::new(list)
}

#[test]
fn starts_closed() {
    let state = sample_state();
    assert!(!state.show_dialog());
    assert_eq!(state.editing_note(), None);
    assert_eq!(state.notes_list().notes.len(), 2);
}

#[test]
fn edit_fills_inputs() {
    let mut state = sample_state();
    let reaction = state.edit_note(0);
    assert_eq!(
        reaction,
        Reaction {
            persist: false,
            inputs: Inputs::Fill {
                title: "first".to_string(),
                content: "content of first".to_string(),
                tags: "a, b".to_string(),
            },
        }
    );
    assert!(state.show_dialog());
    assert_eq!(state.editing_note(), Some(NoteId(1)));
    assert!(!state.editing_favorite());
}

#[test]
fn edit_past_the_end_does_nothing() {
    let mut state = sample_state();
    let reaction = state.edit_note(5);
    assert_eq!(reaction, Reaction { persist: false, inputs: Inputs::Keep });
    assert!(!state.show_dialog());
    assert_eq!(state.editing_note(), None);
}

#[test]
fn saving_filled_inputs_keeps_note() {
    let mut state = sample_state();
    let reaction = state.edit_note(0);
    let (title, content, tags) = match reaction.inputs {
        Inputs::Fill { title, content, tags } => (title, content, tags),
        _ => panic!("inputs not filled"),
    };
    let saved = state.save_note(&title, &content, &tags);
    assert_eq!(saved, Reaction { persist: true, inputs: Inputs::Clear });
    let n = &state.notes_list().notes[0];
    assert_eq!(n.id, NoteId(1));
    assert_eq!(n.title, "first");
    assert_eq!(n.content, "content of first");
    assert_eq!(n.tags, vec!["a".to_string(), "b".to_string()]);
    assert!(!n.favorite);
    assert!(!state.show_dialog());
    assert_eq!(state.editing_note(), None);
    assert_eq!(state.notes_list().notes.len(), 2);
}

#[test]
fn save_edits_the_open_note() {
    let mut state = sample_state();
    state.edit_note(1);
    let reaction = state.save_note("  renamed ", "text", "x, y ,");
    assert!(reaction.persist);
    let n = &state.notes_list().notes[1];
    assert_eq!(n.id, NoteId(2));
    assert_eq!(n.title, "  renamed ");
    assert_eq!(n.content, "text");
    assert_eq!(n.tags, vec!["x".to_string(), "y".to_string()]);
    assert!(n.favorite);
    assert!((1..=12).contains(&n.modification_date.month));
}

#[test]
fn save_without_edit_adds_a_note() {
    let mut state = sample_state();
    state.open_dialog();
    assert!(state.show_dialog());
    let reaction = state.save_note("new", "body", "");
    assert_eq!(reaction, Reaction { persist: true, inputs: Inputs::Clear });
    let notes = &state.notes_list().notes;
    assert_eq!(notes.len(), 3);
    assert_eq!(notes[2].title, "new");
    assert_eq!(notes[2].content, "body");
    assert!(notes[2].tags.is_empty());
    assert!(!notes[2].favorite);
    assert!(!state.show_dialog());
}

#[test]
fn save_with_blank_title_or_content_is_refused() {
    let mut state = sample_state();
    state.edit_note(0);
    let reaction = state.save_note("   ", "body", "t");
    assert_eq!(reaction, Reaction { persist: false, inputs: Inputs::Keep });
    let reaction = state.save_note("title", "\n\t", "t");
    assert_eq!(reaction, Reaction { persist: false, inputs: Inputs::Keep });
    assert!(state.show_dialog());
    assert_eq!(state.editing_note(), Some(NoteId(1)));
    assert_eq!(state.notes_list().notes[0].title, "first");
}

#[test]
fn can_save_needs_open_dialog_and_text() {
    let mut state = sample_state();
    assert!(!state.can_save("t", "c"));
    state.open_dialog();
    assert!(state.can_save("t", "c"));
    assert!(!state.can_save(" ", "c"));
    assert!(!state.can_save("t", ""));
}

#[test]
fn favorite_toggles_the_open_note() {
    let mut state = sample_state();
    assert_eq!(state.toggle_favorite(), Reaction { persist: false, inputs: Inputs::Keep });
    state.edit_note(0);
    assert_eq!(state.toggle_favorite(), Reaction { persist: true, inputs: Inputs::Keep });
    assert!(state.notes_list().notes[0].favorite);
    assert!(state.editing_favorite());
    state.toggle_favorite();
    assert!(!state.notes_list().notes[0].favorite);
    assert!(state.show_dialog());
}

#[test]
fn remove_drops_the_open_note() {
    let mut state = sample_state();
    state.edit_note(0);
    assert_eq!(state.remove_note(), Reaction { persist: true, inputs: Inputs::Clear });
    assert_eq!(state.notes_list().notes.len(), 1);
    assert_eq!(state.notes_list().notes[0].id, NoteId(2));
    assert!(!state.show_dialog());
    assert_eq!(state.editing_note(), None);
    assert_eq!(state.remove_note(), Reaction { persist: false, inputs: Inputs::Clear });
    assert_eq!(state.notes_list().notes.len(), 1);
}

#[test]
fn cancel_closes_the_dialog() {
    let mut state = sample_state();
    state.edit_note(1);
    assert_eq!(state.cancel(), Reaction { persist: false, inputs: Inputs::Clear });
    assert!(!state.show_dialog());
    assert_eq!(state.editing_note(), None);
    assert_eq!(state.notes_list().notes.len(), 2);
}
