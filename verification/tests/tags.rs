use minero::id3reader::{normalize_text, song_tag_from_fields};

#[test]
fn missing_field_is_unknown() {
    assert_eq!(normalize_text(None), "Unknown");
}

#[test]
fn blank_field_is_unknown() {
    assert_eq!(normalize_text(Some("")), "Unknown");
    assert_eq!(normalize_text(Some("  \t\n ")), "Unknown");
    assert_eq!(normalize_text(Some("\u{0}\u{1}\u{7f}")), "Unknown");
    assert_eq!(normalize_text(Some(" \u{0} \u{2028} ")), "Unknown");
}

#[test]
fn field_is_trimmed() {
    assert_eq!(normalize_text(Some("  Nirvana \n")), "Nirvana");
    assert_eq!(normalize_text(Some("\u{3000}Red Hot Chili Peppers\u{a0}")), "Red Hot Chili Peppers");
    assert_eq!(normalize_text(Some("\u{0}Rock\u{0}")), "\u{0}Rock\u{0}");
}

#[test]
fn normalizing_twice_changes_nothing() {
    for input in [None, Some(""), Some("  x  "), Some("\u{1}"), Some("Unknown"), Some(" a b ")] {
        let once = normalize_text(input);
        assert_eq!(normalize_text(Some(&once)), once);
    }
}

#[test]
fn song_tag_from_fields_normalizes_each_field() {
    let tag = song_tag_from_fields(
        "/music/a/01.mp3".to_string(),
        Some(" Around the World "),
        Some("Red Hot Chili Peppers"),
        None,
        Some("   "),
        Some(1),
        Some(1999),
    );
    assert_eq!(tag.file_path, "/music/a/01.mp3");
    assert_eq!(tag.title, "Around the World");
    assert_eq!(tag.artist, "Red Hot Chili Peppers");
    assert_eq!(tag.album, "Unknown");
    assert_eq!(tag.genre, "Unknown");
    assert_eq!(tag.track, Some(1));
    assert_eq!(tag.year, Some(1999));
}

#[test]
fn track_number_converts_like_as_cast() {
    let tag = song_tag_from_fields(String::new(), None, None, None, None, Some(u32::MAX), None);
    assert_eq!(tag.track, Some(-1));
    assert_eq!(tag.year, None);
}
