use notes_core::errors::ApiError;
use notes_core::notes::{EditNote, NoteCreateRequest};
use notes_core::store::Store;

fn seeded_store() -> (Store, i32, i32) {
    let mut s = Store::new();
    let a = s
        .register_with_hash("alice".to_string(), "alice@x.com".to_string(), "h1".to_string(), 10)
        .unwrap();
    let b = s
        .register_with_hash("bob".to_string(), "bob@x.com".to_string(), "h2".to_string(), 11)
        .unwrap();
    (s, a, b)
}

fn note(title: &str, content: &str, public: bool) -> NoteCreateRequest {
    NoteCreateRequest {
        title: title.to_string(),
        content: content.to_string(),
        public: Some(public),
    }
}

#[test]
fn view_reports_bookmark_flag_exactly_when_a_row_exists() {
    let (mut s, a, b) = seeded_store();
    s.create_note_at(a, note("Hi", "Body", true), 20);
    let before = s.build_view(1, b).unwrap();
    assert!(!before.user_bookmark);
    s.toggle_bookmark(b, 1).unwrap();
    let after = s.build_view(1, b).unwrap();
    assert!(after.user_bookmark);
    // The flag is per-viewer: the author has no bookmark row.
    assert!(!s.build_view(1, a).unwrap().user_bookmark);
    s.toggle_bookmark(b, 1).unwrap();
    assert!(!s.build_view(1, b).unwrap().user_bookmark);
}

#[test]
fn view_carries_note_fields_counts_and_votes() {
    let (mut s, a, b) = seeded_store();
    s.create_note_at(a, note("Hi", "Body", true), 20);
    s.toggle_bookmark(a, 1).unwrap();
    s.toggle_bookmark(b, 1).unwrap();
    s.upvote_note(b, 1).unwrap();
    let v = s.build_view(1, b).unwrap();
    assert_eq!(v.id, 1);
    assert_eq!(v.user_id, a);
    assert_eq!(v.created_at, 20);
    assert_eq!(v.title, "Hi");
    assert_eq!(v.content, "Body");
    assert!(v.public);
    assert_eq!(v.saves, 2);
    assert!(v.user_bookmark);
    assert_eq!(v.user_vote, 1);
    let va = s.build_view(1, a).unwrap();
    assert_eq!(va.user_vote, 0);
}

#[test]
fn view_of_missing_note_is_not_found() {
    let (s, _a, b) = seeded_store();
    assert!(matches!(s.build_view(42, b), Err(ApiError::NotFound)));
}

#[test]
fn view_many_preserves_input_order() {
    let (mut s, a, b) = seeded_store();
    s.create_note_at(a, note("One", "1", true), 20);
    s.create_note_at(a, note("Two", "2", true), 21);
    s.create_note_at(a, note("Three", "3", true), 22);
    let m = s.build_view_many(&vec![3, 1, 2], b).unwrap();
    let titles: Vec<&str> = m.notes.iter().map(|n| n.title.as_str()).collect();
    assert_eq!(titles, vec!["Three", "One", "Two"]);
    assert!(matches!(s.build_view_many(&vec![1, 99], b), Err(ApiError::NotFound)));
}

#[test]
fn feed_shows_public_notes_newest_first() {
    let (mut s, a, b) = seeded_store();
    s.create_note_at(a, note("Old", "o", true), 10);
    s.create_note_at(b, note("Secret", "s", false), 15);
    s.create_note_at(a, note("New", "n", true), 30);
    s.create_note_at(b, note("Mid", "m", true), 20);
    let feed = s.get_feed(b);
    let titles: Vec<&str> = feed.notes.iter().map(|n| n.title.as_str()).collect();
    assert_eq!(titles, vec!["New", "Mid", "Old"]);
}

#[test]
fn own_notes_include_private_ones_newest_first() {
    let (mut s, a, _b) = seeded_store();
    s.create_note_at(a, note("Pub", "p", true), 10);
    s.create_note_at(a, note("Priv", "q", false), 20);
    let mine = s.get_notes(a);
    let titles: Vec<&str> = mine.notes.iter().map(|n| n.title.as_str()).collect();
    assert_eq!(titles, vec!["Priv", "Pub"]);
}

#[test]
fn user_notes_show_only_that_users_public_notes() {
    let (mut s, a, b) = seeded_store();
    s.create_note_at(a, note("A pub", "1", true), 10);
    s.create_note_at(a, note("A priv", "2", false), 20);
    s.create_note_at(b, note("B pub", "3", true), 30);
    let listing = s.get_user_notes(a, b);
    let titles: Vec<&str> = listing.notes.iter().map(|n| n.title.as_str()).collect();
    assert_eq!(titles, vec!["A pub"]);
}

#[test]
fn equal_timestamps_keep_table_order() {
    let (mut s, a, _b) = seeded_store();
    s.create_note_at(a, note("First", "1", true), 20);
    s.create_note_at(a, note("Second", "2", true), 20);
    let feed = s.get_feed(a);
    let titles: Vec<&str> = feed.notes.iter().map(|n| n.title.as_str()).collect();
    assert_eq!(titles, vec!["First", "Second"]);
}

#[test]
fn bookmarked_notes_lists_only_bookmarks_in_table_order() {
    let (mut s, a, b) = seeded_store();
    s.create_note_at(a, note("One", "1", true), 30);
    s.create_note_at(a, note("Two", "2", true), 10);
    s.create_note_at(a, note("Three", "3", true), 20);
    s.toggle_bookmark(b, 3).unwrap();
    s.toggle_bookmark(b, 1).unwrap();
    let m = s.get_bookmarked_notes(b);
    let titles: Vec<&str> = m.notes.iter().map(|n| n.title.as_str()).collect();
    assert_eq!(titles, vec!["One", "Three"]);
    assert!(m.notes.iter().all(|n| n.user_bookmark));
}

#[test]
fn edit_note_replaces_only_present_fields() {
    let (mut s, a, _b) = seeded_store();
    s.create_note_at(a, note("Hi", "Body", false), 20);
    let v = s
        .edit_note(
            a,
            1,
            EditNote { title: None, content: Some("New body".to_string()), public: Some(true) },
        )
        .unwrap();
    assert_eq!(v.title, "Hi");
    assert_eq!(v.content, "New body");
    assert!(v.public);
    assert_eq!(v.created_at, 20);
}

#[test]
fn edit_note_by_non_owner_is_forbidden() {
    let (mut s, a, b) = seeded_store();
    s.create_note_at(a, note("Hi", "Body", true), 20);
    let r = s.edit_note(
        b,
        1,
        EditNote { title: Some("Taken over".to_string()), content: None, public: None },
    );
    assert!(matches!(r, Err(ApiError::Forbidden)));
    assert_eq!(s.get_note(a, 1).unwrap().title, "Hi");
}

#[test]
fn private_note_is_hidden_from_non_owners() {
    let (mut s, a, b) = seeded_store();
    s.create_note_at(a, note("Diary", "secret", false), 20);
    // The owner reads it; anyone else gets the same NotFound as for a
    // missing note.
    assert_eq!(s.get_note(a, 1).unwrap().title, "Diary");
    assert!(matches!(s.get_note(b, 1), Err(ApiError::NotFound)));
    assert!(matches!(s.get_note(b, 42), Err(ApiError::NotFound)));
    // Publishing it makes it readable by others.
    s.edit_note(a, 1, EditNote { title: None, content: None, public: Some(true) }).unwrap();
    assert_eq!(s.get_note(b, 1).unwrap().title, "Diary");
}

#[test]
fn edit_missing_note_is_not_found() {
    let (mut s, a, _b) = seeded_store();
    let r = s.edit_note(a, 7, EditNote { title: None, content: None, public: None });
    assert!(matches!(r, Err(ApiError::NotFound)));
}
