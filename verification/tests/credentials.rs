use notes_core::credentials::{hash_password, password_round_trip, verify_password};

#[test]
fn verify_accepts_the_hashed_password() {
    let stored = hash_password("pw123456").expect("hashing failed");
    assert!(verify_password("pw123456", &stored));
}

#[test]
fn round_trip_reports_true_whenever_hashing_succeeds() {
    assert_eq!(password_round_trip("hunter2"), Some(true));
}

#[test]
fn verify_rejects_a_different_password() {
    let stored = hash_password("pw123456").expect("hashing failed");
    assert!(!verify_password("pw1234567", &stored));
    assert!(!verify_password("", &stored));
}

#[test]
fn verify_rejects_a_malformed_stored_hash() {
    assert!(!verify_password("pw123456", "not-a-phc-string"));
    assert!(!verify_password("pw123456", ""));
}

#[test]
fn two_hashes_of_one_password_differ_by_salt() {
    let a = hash_password("pw123456").expect("hashing failed");
    let b = hash_password("pw123456").expect("hashing failed");
    assert_ne!(a, b);
    assert!(verify_password("pw123456", &a));
    assert!(verify_password("pw123456", &b));
}
