use synapse_server::color::{generate_user_color, palette_entry, PALETTE_SIZE};
use synapse_server::membership::SHORT_ID_BYTES;
use synapse_server::text::{default_display_name, same_text};

const PALETTE: [&str; 10] = [
    "#FF6B6B", "#4ECDC4", "#45B7D1", "#96CEB4", "#FFEAA7", "#DDA0DD", "#98D8C8", "#F7DC6F",
    "#BB8FCE", "#85C1E9",
];

#[test]
fn palette_has_ten_distinct_entries() {
    assert_eq!(PALETTE_SIZE, 10);
    for i in 0..PALETTE_SIZE {
        assert_eq!(palette_entry(i), PALETTE[i]);
        for j in 0..i {
            assert_ne!(palette_entry(i), palette_entry(j));
        }
    }
}

#[test]
fn empty_identifier_gets_first_color() {
    assert_eq!(generate_user_color(""), "#FF6B6B");
}

#[test]
fn color_is_byte_sum_modulo_palette_size() {
    // 'a' is 97
    assert_eq!(generate_user_color("a"), "#F7DC6F");
    // 97 + 98 = 195
    assert_eq!(generate_user_color("ab"), "#DDA0DD");
    // 117 + 115 + 101 + 114 + 45 + 49 = 541
    assert_eq!(generate_user_color("user-1"), "#4ECDC4");
    // 804 + 45 + 202 = 1051
    assert_eq!(generate_user_color("abcdefgh-1234"), "#4ECDC4");
}

#[test]
fn color_counts_bytes_not_characters() {
    // U+00E9 is encoded as 0xC3 0xA9: 195 + 169 = 364
    assert_eq!(generate_user_color("\u{e9}"), "#FFEAA7");
}

#[test]
fn color_ignores_the_order_of_bytes() {
    assert_eq!(generate_user_color("abc"), generate_user_color("cba"));
}

#[test]
fn color_is_stable_across_calls() {
    for id in ["", "a", "user-1", "6f1c2a9e-0b7d-4c3e-9f2a-5d8e7c6b4a31"] {
        let first = generate_user_color(id);
        for _ in 0..5 {
            assert_eq!(generate_user_color(id), first);
        }
        assert!(PALETTE.contains(&first.as_str()));
    }
}

#[test]
fn hundred_identifiers_get_several_colors() {
    let mut seen: Vec<String> = Vec::new();
    for i in 0..100 {
        let color = generate_user_color(&format!("participant-{}", i));
        if !seen.contains(&color) {
            seen.push(color);
        }
    }
    assert!(seen.len() >= 2);
    assert_eq!(seen.len(), 10);
}

#[test]
fn long_identifier_does_not_overflow() {
    let id = "\u{7f}".repeat(100_000);
    // 127 * 100000 = 12700000
    assert_eq!(generate_user_color(&id), "#FF6B6B");
}

#[test]
fn same_text_compares_characters() {
    assert!(same_text("", ""));
    assert!(same_text("room", "room"));
    assert!(!same_text("room", "rooms"));
    assert!(!same_text("room", "roon"));
    assert!(!same_text("", "r"));
    assert!(same_text("caf\u{e9}", "caf\u{e9}"));
    assert!(!same_text("caf\u{e9}", "cafe"));
}

#[test]
fn short_form_has_at_most_eight_bytes() {
    assert_eq!(SHORT_ID_BYTES, 8);
    assert_eq!(default_display_name("abcdefghi"), "User abcdefgh");
    assert_eq!(default_display_name("abcdefgh"), "User abcdefgh");
}

#[test]
fn short_identifier_is_its_own_short_form() {
    assert_eq!(default_display_name("abcdefg"), "User abcdefg");
    assert_eq!(default_display_name("u1"), "User u1");
    assert_eq!(default_display_name(""), "User ");
    assert_eq!(default_display_name("\u{e9}"), "User \u{e9}");
}

#[test]
fn short_form_never_splits_a_character() {
    // boundaries at 0, 1, 3, 5, 7, 9 and 11: the cut falls back to byte 7
    assert_eq!(
        default_display_name("a\u{e9}\u{e9}\u{e9}\u{e9}\u{e9}"),
        "User a\u{e9}\u{e9}\u{e9}"
    );
    // a character of four bytes from byte 6 on: the cut falls back to byte 6
    assert_eq!(default_display_name("abcdef\u{1f600}gh"), "User abcdef");
    // three characters of three bytes: the cut falls back to byte 6
    assert_eq!(default_display_name("\u{20ac}\u{20ac}\u{20ac}"), "User \u{20ac}\u{20ac}");
    // one character of four bytes after seven of one
    assert_eq!(default_display_name("abcdefg\u{1f600}"), "User abcdefg");
}

#[test]
fn default_name_shows_the_first_eight_bytes() {
    assert_eq!(default_display_name("abcdefgh"), "User abcdefgh");
    assert_eq!(default_display_name("abcdefgh-1234"), "User abcdefgh");
    assert_eq!(
        default_display_name("6f1c2a9e-0b7d-4c3e-9f2a-5d8e7c6b4a31"),
        "User 6f1c2a9e"
    );
    assert_eq!(
        default_display_name("\u{e9}\u{e9}\u{e9}\u{e9}-x"),
        "User \u{e9}\u{e9}\u{e9}\u{e9}"
    );
}
