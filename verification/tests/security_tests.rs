use hangman_plus::security::{hash_password, hash_token, password_round_trip, token_hash_deterministic, verify_password};

#[test]
fn password_hash_round_trip() {
    let hash = hash_password("correct horse battery").expect("hashing succeeds");
    assert!(verify_password("correct horse battery", &hash));
}

#[test]
fn password_wrong_rejected() {
    let hash = hash_password("correct horse battery").expect("hashing succeeds");
    assert!(!verify_password("wrong horse battery", &hash));
}

#[test]
fn password_hash_not_deterministic() {
    let h1 = hash_password("some password").expect("hashing succeeds");
    let h2 = hash_password("some password").expect("hashing succeeds");
    assert_ne!(h1, h2);
}

#[test]
fn password_round_trip_law() {
    assert_eq!(password_round_trip("another password"), Some(true));
}

#[test]
fn malformed_hash_fails_closed() {
    assert!(!verify_password("anything", "not a phc string"));
    assert!(!verify_password("anything", ""));
}

#[test]
fn token_hash_deterministic_repeated() {
    let (a, b) = token_hash_deterministic("some-bearer-token");
    assert_eq!(a, b);
    let c = hash_token("some-bearer-token");
    assert_eq!(a, c);
}

#[test]
fn token_hash_differs_for_different_tokens() {
    assert_ne!(hash_token("token-one"), hash_token("token-two"));
}

#[test]
fn token_hash_is_hex_digest_not_echo() {
    let d = hash_token("abc");
    assert_ne!(d, "abc");
    assert_eq!(d.len(), 64);
    assert!(d.chars().all(|c| c.is_ascii_hexdigit()));
}
