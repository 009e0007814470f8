use japanki::text::{clean_romaji, dec_string, romaji_matches};

#[test]
fn normalize_konnichiwa_variants() {
    assert_eq!(clean_romaji("Kon'nichiwa"), "konnichiwa");
    assert_eq!(clean_romaji("konnichiwa"), "konnichiwa");
    assert_eq!(clean_romaji(" KON NICHIWA "), "konnichiwa");
}

#[test]
fn normalize_strips_non_alphabetic() {
    assert_eq!(clean_romaji(""), "");
    assert_eq!(clean_romaji("123!?."), "");
    assert_eq!(clean_romaji("a1b2c3"), "abc");
}

#[test]
fn normalize_lowercases() {
    assert_eq!(clean_romaji("A"), "a");
    assert_eq!(clean_romaji("TOKYO"), "tokyo");
}

#[test]
fn ohayou_with_punctuation_and_case_matches() {
    assert!(romaji_matches("ohayou", "Ohayou!"));
    assert!(romaji_matches("ohayou", " ohayou "));
}

#[test]
fn romaji_mismatch_is_reported() {
    assert!(!romaji_matches("ohayou", "konbanwa"));
}

#[test]
fn macron_spelling_differs_from_plain_vowels() {
    assert_eq!(clean_romaji("tōkyō"), "tōkyō");
    assert!(!romaji_matches("tōkyō", "Toukyou"));
    assert!(romaji_matches("tōkyō", "Tō kyō!"));
}

#[test]
fn dec_string_exact_values() {
    assert_eq!(dec_string(0), "0");
    assert_eq!(dec_string(7), "7");
    assert_eq!(dec_string(10), "10");
    assert_eq!(dec_string(255), "255");
    assert_eq!(dec_string(65535), "65535");
}
