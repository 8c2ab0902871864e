use joplin_smart_search::ids::is_valid_joplin_id;

#[test]
fn accepts_valid_32_char_lowercase_hex() {
    assert!(is_valid_joplin_id("0123456789abcdef0123456789abcdef"));
    assert!(is_valid_joplin_id("ffffffffffffffffffffffffffffffff"));
    assert!(is_valid_joplin_id("00000000000000000000000000000000"));
}

#[test]
fn rejects_wrong_length() {
    assert!(!is_valid_joplin_id(""));
    assert!(!is_valid_joplin_id("abc"));
    assert!(!is_valid_joplin_id("0123456789abcdef0123456789abcde"));
    assert!(!is_valid_joplin_id("0123456789abcdef0123456789abcdef0"));
}

#[test]
fn rejects_uppercase_hex() {
    assert!(!is_valid_joplin_id("0123456789ABCDEF0123456789ABCDEF"));
}

#[test]
fn rejects_non_hex_characters() {
    assert!(!is_valid_joplin_id("0123456789abcdeg0123456789abcdef"));
    assert!(!is_valid_joplin_id("0123456789abcde-0123456789abcdef"));
    assert!(!is_valid_joplin_id("0123456789abcdé0123456789abcdef"));
}
