use notes_core::errors::ApiError;
use notes_core::notes::NoteCreateRequest;
use notes_core::store::Store;

fn store_with_note() -> (Store, i32, i32, i32) {
    let mut s = Store::new();
    let author = s
        .register_with_hash("alice".to_string(), "alice@x.com".to_string(), "h1".to_string(), 10)
        .unwrap();
    let other = s
        .register_with_hash("bob".to_string(), "bob@x.com".to_string(), "h2".to_string(), 11)
        .unwrap();
    s.create_note_at(
        author,
        NoteCreateRequest {
            title: "Hi".to_string(),
            content: "Body".to_string(),
            public: Some(true),
        },
        20,
    );
    (s, author, other, 1)
}

#[test]
fn bookmark_toggle_alternates_created_removed_created() {
    let (mut s, _a, b, note) = store_with_note();
    assert_eq!(s.toggle_bookmark(b, note), Ok(true));
    assert_eq!(s.toggle_bookmark(b, note), Ok(false));
    assert_eq!(s.toggle_bookmark(b, note), Ok(true));
}

#[test]
fn bookmark_endpoint_reports_marked_flag() {
    let (mut s, _a, b, note) = store_with_note();
    let r1 = s.bookmark_note(b, note).unwrap();
    assert!(r1.success && r1.marked);
    let r2 = s.bookmark_note(b, note).unwrap();
    assert!(r2.success && !r2.marked);
}

#[test]
fn bookmark_status_follows_the_rows() {
    let (mut s, _a, b, note) = store_with_note();
    assert_eq!(s.is_bookmark_on_note(b, note).unwrap().marked, false);
    s.toggle_bookmark(b, note).unwrap();
    assert_eq!(s.is_bookmark_on_note(b, note).unwrap().marked, true);
}

#[test]
fn bookmark_toggle_on_missing_note_is_not_found() {
    let (mut s, _a, b, _note) = store_with_note();
    assert_eq!(s.toggle_bookmark(b, 999), Err(ApiError::NotFound));
    assert_eq!(s.is_bookmark_on_note(b, 999).err(), Some(ApiError::NotFound));
}

#[test]
fn upvote_then_downvote_deletes_instead_of_flipping() {
    let (mut s, _a, b, note) = store_with_note();
    let up = s.upvote_note(b, note).unwrap();
    assert_eq!(up.is_upvoted, 1);
    assert_eq!(s.get_note_votes(note).unwrap().votes, 1);
    // The documented quirk: a downvote while an upvote exists removes the
    // upvote; the score returns to 0, not -1.
    let down = s.downvote_note(b, note).unwrap();
    assert_eq!(down.is_upvoted, 0);
    assert_eq!(s.get_note_votes(note).unwrap().votes, 0);
}

#[test]
fn score_is_upvotes_minus_downvotes() {
    let (mut s, a, b, note) = store_with_note();
    let c = s
        .register_with_hash("carol".to_string(), "carol@x.com".to_string(), "h3".to_string(), 12)
        .unwrap();
    assert_eq!(s.upvote_note(a, note).unwrap().is_upvoted, 1);
    assert_eq!(s.upvote_note(b, note).unwrap().is_upvoted, 1);
    assert_eq!(s.downvote_note(c, note).unwrap().is_upvoted, -1);
    assert_eq!(s.get_note_votes(note).unwrap().votes, 1);
}

#[test]
fn each_toggle_moves_the_score_by_at_most_one() {
    let (mut s, _a, b, note) = store_with_note();
    let mut last = s.get_note_votes(note).unwrap().votes;
    for i in 0..6 {
        if i % 2 == 0 {
            s.upvote_note(b, note).unwrap();
        } else {
            s.downvote_note(b, note).unwrap();
        }
        let now = s.get_note_votes(note).unwrap().votes;
        assert!((now - last).abs() <= 1);
        last = now;
    }
}

#[test]
fn own_vote_reports_signed_value_or_zero() {
    let (mut s, a, b, note) = store_with_note();
    assert_eq!(s.get_note_vote(b, note).unwrap().is_upvoted, 0);
    s.upvote_note(b, note).unwrap();
    assert_eq!(s.get_note_vote(b, note).unwrap().is_upvoted, 1);
    s.downvote_note(a, note).unwrap();
    assert_eq!(s.get_note_vote(a, note).unwrap().is_upvoted, -1);
    assert_eq!(s.get_note_vote(b, note).unwrap().is_upvoted, 1);
}

#[test]
fn vote_endpoints_on_missing_note_are_not_found() {
    let (mut s, _a, b, _note) = store_with_note();
    assert_eq!(s.toggle_vote(b, 999, true), Err(ApiError::NotFound));
    assert_eq!(s.get_note_votes(999).map(|r| r.votes), Err(ApiError::NotFound));
    assert_eq!(s.get_note_vote(b, 999).map(|r| r.is_upvoted), Err(ApiError::NotFound));
}
