use std::collections::HashSet;

use notes_core::tokens::{generate_token, hash_token};

#[test]
fn digest_is_deterministic_across_calls() {
    let t = "some-opaque-session-token";
    let d1 = hash_token(t);
    let d2 = hash_token(t);
    assert_eq!(d1, d2);
}

#[test]
fn digest_matches_known_sha256_vector() {
    // SHA-256("abc"), lower-case hex.
    assert_eq!(
        hash_token("abc"),
        "ba7816bf8f01cfea414140de5dae2223b00361a396177a9cb410ff61f20015ad"
    );
}

#[test]
fn digest_is_64_hex_chars_and_not_the_token() {
    let t = "0123456789abcdef0123456789abcdef0123456789abcdef0123456789abcdef";
    let d = hash_token(t);
    assert_eq!(d.len(), 64);
    assert!(d.chars().all(|c| c.is_ascii_hexdigit()));
    assert_ne!(d, t);
}

#[test]
fn distinct_tokens_get_distinct_digests() {
    assert_ne!(hash_token("token-a"), hash_token("token-b"));
}

#[test]
fn generated_tokens_are_64_alphanumeric_chars() {
    for _ in 0..100 {
        let t = generate_token();
        assert_eq!(t.chars().count(), 64);
        assert!(t.chars().all(|c| c.is_ascii_alphanumeric()));
    }
}

#[test]
fn generated_tokens_do_not_collide_over_many_samples() {
    let mut seen: HashSet<String> = HashSet::new();
    for _ in 0..10_000 {
        let t = generate_token();
        assert!(seen.insert(t), "two generated tokens collided");
    }
}
