use bulletd_core::id::{generate_id, validate_id};
use std::collections::HashSet;

#[test]
fn generate_id_format() {
    let id = generate_id();
    assert_eq!(id.len(), 2);
    let chars: Vec<char> = id.chars().collect();
    assert!(
        chars[0].is_ascii_lowercase(),
        "first char should be a-z: {id}"
    );
    assert!(chars[1].is_ascii_digit(), "second char should be 0-9: {id}");
}

#[test]
fn generate_id_statistical_uniqueness() {
    // With 260 possible IDs, 50 should be unique nearly always
    let ids: HashSet<String> = (0..50).map(|_| generate_id()).collect();
    assert!(
        ids.len() >= 40,
        "expected mostly unique IDs, got {}",
        ids.len()
    );
}

#[test]
fn validate_id_valid() {
    assert!(validate_id("a3").is_ok());
    assert!(validate_id("z0").is_ok());
    assert!(validate_id("m9").is_ok());
}

#[test]
fn validate_id_invalid() {
    assert!(validate_id("").is_err());
    assert!(validate_id("a").is_err());
    assert!(validate_id("3a").is_err());
    assert!(validate_id("A3").is_err());
    assert!(validate_id("ab").is_err());
    assert!(validate_id("a33").is_err());
    assert!(validate_id("a7f3b2c1").is_err());
}

#[test]
fn validate_id_error_names_the_id() {
    match validate_id("Q1") {
        Err(bulletd_core::error::Error::InvalidIdFormat { id }) => assert_eq!(id, "Q1"),
        other => panic!("expected InvalidIdFormat, got {other:?}"),
    }
}

#[test]
fn id_positions_cover_every_id() {
    let mut all = HashSet::new();
    for n in 0..260u32 {
        let id = bulletd_core::id::id_from_index(n);
        assert!(validate_id(&id).is_ok());
        all.insert(id);
    }
    assert_eq!(all.len(), 260);
    assert_eq!(bulletd_core::id::id_from_index(0), "a0");
    assert_eq!(bulletd_core::id::id_from_index(259), "z9");
    assert_eq!(bulletd_core::id::id_from_index(37), "d7");
}
