use notes_core::errors::ApiError;
use notes_core::notes::NoteCreateRequest;
use notes_core::store::Store;

fn store_with_note(public: bool) -> (Store, i32, i32) {
    let mut s = Store::new();
    let a = s
        .register_with_hash("alice".to_string(), "alice@x.com".to_string(), "h1".to_string(), 10)
        .unwrap();
    let b = s
        .register_with_hash("bob".to_string(), "bob@x.com".to_string(), "h2".to_string(), 11)
        .unwrap();
    s.create_note_at(
        a,
        NoteCreateRequest {
            title: "Rust".to_string(),
            content: "Ownership and borrowing".to_string(),
            public: Some(public),
        },
        20,
    );
    (s, a, b)
}

fn question_json(title: &str, correct: i32) -> String {
    format!(
        "{{\"title\": \"{}\", \"answers\": [\"a\", \"b\", \"c\", \"d\"], \"correct\": {}}}",
        title, correct
    )
}

fn payload_with_questions(n: usize) -> String {
    let qs: Vec<String> = (0..n).map(|i| question_json(&format!("Q{}", i), (i % 4) as i32)).collect();
    format!("{{\"questions\": [{}]}}", qs.join(", "))
}

#[test]
fn create_quiz_persists_validated_questions_in_order() {
    let (mut s, a, _b) = store_with_note(true);
    let payload = payload_with_questions(5);
    let resp = s.create_quiz(a, 1, Some(&payload)).unwrap();
    assert_eq!(resp.questions.len(), 5);
    let fetched = s.get_quizes(a, 1).unwrap();
    assert_eq!(fetched.id, resp.id);
    assert_eq!(fetched.questions.len(), 5);
    for (i, q) in fetched.questions.iter().enumerate() {
        assert_eq!(q.title, format!("Q{}", i));
        assert_eq!(q.answers, vec!["a", "b", "c", "d"]);
        assert_eq!(q.correct, (i % 4) as i32);
    }
}

#[test]
fn second_create_quiz_is_a_conflict_and_keeps_the_original() {
    let (mut s, a, _b) = store_with_note(true);
    let first = payload_with_questions(5);
    s.create_quiz(a, 1, Some(&first)).unwrap();
    let other = payload_with_questions(6);
    assert_eq!(s.create_quiz(a, 1, Some(&other)).err(), Some(ApiError::Conflict));
    let fetched = s.get_quizes(a, 1).unwrap();
    assert_eq!(fetched.questions.len(), 5);
    assert_eq!(fetched.questions[0].title, "Q0");
}

#[test]
fn quiz_for_anothers_note_is_forbidden() {
    let (mut s, _a, b) = store_with_note(true);
    let payload = payload_with_questions(5);
    assert_eq!(s.create_quiz(b, 1, Some(&payload)).err(), Some(ApiError::Forbidden));
}

#[test]
fn quiz_for_missing_note_is_not_found() {
    let (mut s, a, _b) = store_with_note(true);
    let payload = payload_with_questions(5);
    assert_eq!(s.create_quiz(a, 9, Some(&payload)).err(), Some(ApiError::NotFound));
}

#[test]
fn empty_or_garbage_provider_output_is_an_upstream_failure() {
    let (mut s, a, _b) = store_with_note(true);
    assert_eq!(s.create_quiz(a, 1, None).err(), Some(ApiError::UpstreamFailure));
    assert_eq!(s.create_quiz(a, 1, Some("")).err(), Some(ApiError::UpstreamFailure));
    assert_eq!(
        s.create_quiz(a, 1, Some("I could not generate a quiz, sorry!")).err(),
        Some(ApiError::UpstreamFailure)
    );
    // Nothing was persisted: a later fetch still finds no quiz.
    assert_eq!(s.get_quizes(a, 1).err(), Some(ApiError::NotFound));
}

#[test]
fn malformed_shapes_are_upstream_failures_and_persist_nothing() {
    let (mut s, a, _b) = store_with_note(true);
    // Wrong top-level key.
    assert_eq!(
        s.create_quiz(a, 1, Some("{\"items\": []}")).err(),
        Some(ApiError::UpstreamFailure)
    );
    // Too few questions.
    let four = payload_with_questions(4);
    assert_eq!(s.create_quiz(a, 1, Some(&four)).err(), Some(ApiError::UpstreamFailure));
    // Too many questions.
    let eleven = payload_with_questions(11);
    assert_eq!(s.create_quiz(a, 1, Some(&eleven)).err(), Some(ApiError::UpstreamFailure));
    // Three answers instead of four.
    let three_answers = "{\"questions\": [\
        {\"title\": \"Q0\", \"answers\": [\"a\", \"b\", \"c\", \"d\"], \"correct\": 0},\
        {\"title\": \"Q1\", \"answers\": [\"a\", \"b\", \"c\", \"d\"], \"correct\": 0},\
        {\"title\": \"Q2\", \"answers\": [\"a\", \"b\", \"c\", \"d\"], \"correct\": 0},\
        {\"title\": \"Q3\", \"answers\": [\"a\", \"b\", \"c\", \"d\"], \"correct\": 0},\
        {\"title\": \"Q4\", \"answers\": [\"a\", \"b\", \"c\"], \"correct\": 0}]}";
    assert_eq!(s.create_quiz(a, 1, Some(three_answers)).err(), Some(ApiError::UpstreamFailure));
    // Correct index out of bounds.
    let bad_correct = format!(
        "{{\"questions\": [{}, {}]}}",
        (0..4).map(|i| question_json(&format!("Q{}", i), 0)).collect::<Vec<_>>().join(", "),
        question_json("Q4", 4)
    );
    assert_eq!(s.create_quiz(a, 1, Some(&bad_correct)).err(), Some(ApiError::UpstreamFailure));
    // A non-string answer.
    let numeric_answer = "{\"questions\": [\
        {\"title\": \"Q0\", \"answers\": [\"a\", \"b\", \"c\", 7], \"correct\": 0},\
        {\"title\": \"Q1\", \"answers\": [\"a\", \"b\", \"c\", \"d\"], \"correct\": 0},\
        {\"title\": \"Q2\", \"answers\": [\"a\", \"b\", \"c\", \"d\"], \"correct\": 0},\
        {\"title\": \"Q3\", \"answers\": [\"a\", \"b\", \"c\", \"d\"], \"correct\": 0},\
        {\"title\": \"Q4\", \"answers\": [\"a\", \"b\", \"c\", \"d\"], \"correct\": 0}]}";
    assert_eq!(s.create_quiz(a, 1, Some(numeric_answer)).err(), Some(ApiError::UpstreamFailure));
    assert_eq!(s.get_quizes(a, 1).err(), Some(ApiError::NotFound));
}

#[test]
fn quiz_of_a_public_note_is_readable_by_others() {
    let (mut s, a, b) = store_with_note(true);
    let payload = payload_with_questions(5);
    s.create_quiz(a, 1, Some(&payload)).unwrap();
    assert!(s.get_quizes(b, 1).is_ok());
}

#[test]
fn quiz_of_a_private_note_is_hidden_as_not_found() {
    let (mut s, a, b) = store_with_note(false);
    let payload = payload_with_questions(5);
    s.create_quiz(a, 1, Some(&payload)).unwrap();
    // Not Forbidden: a non-owner cannot learn that the quiz exists.
    assert_eq!(s.get_quizes(b, 1).err(), Some(ApiError::NotFound));
    assert!(s.get_quizes(a, 1).is_ok());
}

#[test]
fn prompt_preparation_checks_the_same_gates() {
    let (mut s, a, b) = store_with_note(true);
    let (system, user) = s.prepare_quiz_prompt(a, 1).unwrap();
    assert!(system.starts_with("You are a quiz generator."));
    assert_eq!(user, "Generate a quiz from this note:\n\nOwnership and borrowing");
    assert_eq!(s.prepare_quiz_prompt(b, 1).err(), Some(ApiError::Forbidden));
    assert_eq!(s.prepare_quiz_prompt(a, 9).err(), Some(ApiError::NotFound));
    let payload = payload_with_questions(5);
    s.create_quiz(a, 1, Some(&payload)).unwrap();
    assert_eq!(s.prepare_quiz_prompt(a, 1).err(), Some(ApiError::Conflict));
}
