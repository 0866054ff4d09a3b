use notes_core::accounts::{LoginRequest, RegisterRequest};
use notes_core::clock::now_timestamp;
use notes_core::errors::ApiError;
use notes_core::notes::NoteCreateRequest;
use notes_core::store::Store;

fn register_request(username: &str, email: &str, password: &str) -> RegisterRequest {
    RegisterRequest {
        username: username.to_string(),
        email: email.to_string(),
        password: password.to_string(),
    }
}

fn login_request(username: &str, password: &str) -> LoginRequest {
    LoginRequest { username: username.to_string(), password: password.to_string() }
}

#[test]
fn register_then_login_then_authenticate() {
    let mut s = Store::new();
    let now = now_timestamp();
    let r = s.register(register_request("alice", "alice@x.com", "pw123456"), now).unwrap();
    assert!(r.success);
    let token = s.login(&login_request("alice", "pw123456"), now).unwrap().token;
    assert_eq!(token.chars().count(), 64);
    let p = s.authenticate(Some(token.as_str())).unwrap();
    let me = s.get_current_user(p.user_id).unwrap();
    assert_eq!(me.username, "alice");
    assert_eq!(me.email, "alice@x.com");
    assert!(!me.has_profile_picture);
}

#[test]
fn authenticate_rejects_missing_or_unknown_tokens() {
    let mut s = Store::new();
    s.register(register_request("alice", "alice@x.com", "pw123456"), 5).unwrap();
    assert_eq!(s.authenticate(None).err(), Some(ApiError::Unauthorized));
    assert_eq!(
        s.authenticate(Some("not-a-token-anyone-issued")).err(),
        Some(ApiError::Unauthorized)
    );
}

#[test]
fn login_rejects_wrong_credentials() {
    let mut s = Store::new();
    s.register(register_request("alice", "alice@x.com", "pw123456"), 5).unwrap();
    assert_eq!(
        s.login(&login_request("alice", "wrong-password"), 6).err(),
        Some(ApiError::Unauthorized)
    );
    assert_eq!(
        s.login(&login_request("nobody", "pw123456"), 6).err(),
        Some(ApiError::Unauthorized)
    );
}

#[test]
fn register_rejects_taken_username_and_email() {
    let mut s = Store::new();
    s.register(register_request("alice", "alice@x.com", "pw123456"), 5).unwrap();
    assert_eq!(
        s.register(register_request("alice", "other@x.com", "pw123456"), 6).err(),
        Some(ApiError::Conflict)
    );
    assert_eq!(
        s.register(register_request("alice2", "alice@x.com", "pw123456"), 6).err(),
        Some(ApiError::Conflict)
    );
}

#[test]
fn register_rejects_out_of_bounds_requests() {
    let mut s = Store::new();
    assert_eq!(
        s.register(register_request("alice", "not-an-email", "pw123456"), 5).err(),
        Some(ApiError::BadRequest)
    );
    assert_eq!(
        s.register(register_request("", "alice@x.com", "pw123456"), 5).err(),
        Some(ApiError::BadRequest)
    );
    let long = "x".repeat(129);
    assert_eq!(
        s.register(register_request(&long, "alice@x.com", "pw123456"), 5).err(),
        Some(ApiError::BadRequest)
    );
}

#[test]
fn login_rejects_out_of_bounds_requests() {
    let mut s = Store::new();
    s.register(register_request("alice", "alice@x.com", "pw123456"), 5).unwrap();
    assert_eq!(s.login(&login_request("", "pw123456"), 6).err(), Some(ApiError::BadRequest));
}

#[test]
fn two_logins_issue_distinct_tokens() {
    let mut s = Store::new();
    s.register(register_request("alice", "alice@x.com", "pw123456"), 5).unwrap();
    let t1 = s.login(&login_request("alice", "pw123456"), 6).unwrap().token;
    let t2 = s.login(&login_request("alice", "pw123456"), 7).unwrap().token;
    assert_ne!(t1, t2);
    assert!(s.authenticate(Some(t1.as_str())).is_ok());
    assert!(s.authenticate(Some(t2.as_str())).is_ok());
}

#[test]
fn public_profile_hides_the_email() {
    let mut s = Store::new();
    let id = s
        .register_with_hash("alice".to_string(), "alice@x.com".to_string(), "h".to_string(), 5)
        .unwrap();
    let pu = s.get_user(id).unwrap();
    assert_eq!(pu.id, id);
    assert_eq!(pu.username, "alice");
    assert_eq!(pu.created_at, 5);
    assert!(!pu.has_profile_picture);
    assert_eq!(s.get_user(99).err(), Some(ApiError::NotFound));
}

#[test]
fn profile_picture_round_trip() {
    let mut s = Store::new();
    let id = s
        .register_with_hash("alice".to_string(), "alice@x.com".to_string(), "h".to_string(), 5)
        .unwrap();
    assert_eq!(s.get_user_profile_picture(id).err(), Some(ApiError::NotFound));
    let image = vec![1u8, 2, 3, 4];
    s.set_user_profile_picture(id, id, image.clone()).unwrap();
    assert_eq!(s.get_user_profile_picture(id).unwrap(), image);
    assert!(s.get_user(id).unwrap().has_profile_picture);
}

#[test]
fn profile_picture_rules_are_checked_in_order() {
    let mut s = Store::new();
    let a = s
        .register_with_hash("alice".to_string(), "alice@x.com".to_string(), "h".to_string(), 5)
        .unwrap();
    let b = s
        .register_with_hash("bob".to_string(), "bob@x.com".to_string(), "h".to_string(), 6)
        .unwrap();
    assert_eq!(s.set_user_profile_picture(b, a, vec![0u8; 4]).err(), Some(ApiError::Forbidden));
    let oversized = vec![0u8; 2 * 1024 * 1024 + 1];
    assert_eq!(s.set_user_profile_picture(a, a, oversized).err(), Some(ApiError::BadRequest));
    assert_eq!(s.set_user_profile_picture(99, 99, vec![0u8; 4]).err(), Some(ApiError::NotFound));
}

#[test]
fn full_scenario_two_users_share_and_bookmark() {
    let mut s = Store::new();
    let now = now_timestamp();
    // A registers and logs in.
    s.register(register_request("alice", "alice@x.com", "pw123456"), now).unwrap();
    let token_a = s.login(&login_request("alice", "pw123456"), now).unwrap().token;
    let a = s.authenticate(Some(token_a.as_str())).unwrap().user_id;
    // A creates a public note.
    let created = s.create_note(
        a,
        NoteCreateRequest {
            title: "Hi".to_string(),
            content: "Body".to_string(),
            public: Some(true),
        },
    );
    assert!(created.success);
    // B registers and logs in with a token of their own.
    s.register(register_request("bob", "bob@x.com", "pw7890123"), now).unwrap();
    let token_b = s.login(&login_request("bob", "pw7890123"), now).unwrap().token;
    assert_ne!(token_a, token_b);
    let b = s.authenticate(Some(token_b.as_str())).unwrap().user_id;
    assert_ne!(a, b);
    // B toggles a bookmark on A's note: marked, then unmarked.
    let first = s.bookmark_note(b, 1).unwrap();
    assert!(first.success);
    assert!(first.marked);
    let second = s.bookmark_note(b, 1).unwrap();
    assert!(second.success);
    assert!(!second.marked);
}

#[test]
fn raw_header_authentication_handles_bytes() {
    let mut s = Store::new();
    s.register(register_request("alice", "alice@x.com", "pw123456"), 5).unwrap();
    let token = s.login(&login_request("alice", "pw123456"), 6).unwrap().token;
    assert!(s.authenticate_header(Some(token.as_bytes())).is_ok());
    assert_eq!(s.authenticate_header(None).err(), Some(ApiError::Unauthorized));
    // Bytes that are not UTF-8 cannot name any stored token.
    assert_eq!(
        s.authenticate_header(Some(&[0xFF, 0xFE, 0x80])).err(),
        Some(ApiError::Unauthorized)
    );
}
