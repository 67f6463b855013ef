use qstream::text::{
    count_line_breaks, normalize_donation_body, normalize_donation_name, normalize_google_name,
    to_ascii_lowercase, to_ascii_uppercase, trim_string,
};

#[test]
fn line_breaks_count_crlf_once() {
    assert_eq!(count_line_breaks("a\nb"), 1);
    assert_eq!(count_line_breaks("a\r\nb"), 1);
    assert_eq!(count_line_breaks("a\rb"), 1);
    assert_eq!(count_line_breaks("a\r\rb\n\n"), 4);
    assert_eq!(count_line_breaks("\r\n\r\n"), 2);
    assert_eq!(count_line_breaks("no breaks"), 0);
    assert_eq!(count_line_breaks(""), 0);
}

#[test]
fn trim_removes_unicode_whitespace() {
    assert_eq!(trim_string("  hi there \t\n"), "hi there");
    assert_eq!(trim_string("\u{3000}x\u{a0}"), "x");
    assert_eq!(trim_string("   "), "");
}

#[test]
fn google_names() {
    assert_eq!(normalize_google_name(None), "google_user");
    assert_eq!(normalize_google_name(Some("   ")), "google_user");
    assert_eq!(normalize_google_name(Some("  Ada Lovelace ")), "Ada Lovelace");
    assert_eq!(normalize_google_name(Some("A\u{7}da")), "Ada");
    assert_eq!(normalize_google_name(Some("\u{1}\u{2}")), "google_user");
    let long: String = std::iter::repeat('x').take(70).collect();
    assert_eq!(normalize_google_name(Some(&long)).chars().count(), 64);
    // cut to 64 characters, then trimmed again
    let spaced = format!("{} {}", "y".repeat(63), "z");
    assert_eq!(normalize_google_name(Some(&spaced)), "y".repeat(63));
}

#[test]
fn donor_names() {
    assert_eq!(normalize_donation_name(None), "donor");
    assert_eq!(normalize_donation_name(Some("")), "donor");
    assert_eq!(normalize_donation_name(Some(" Bob\u{0} ")), "Bob");
}

#[test]
fn donation_bodies() {
    assert_eq!(normalize_donation_body(None), "");
    assert_eq!(normalize_donation_body(Some("  hello\n\tworld\u{1b}!  ")), "hello\n\tworld!");
    let long: String = std::iter::repeat('a').take(400).collect();
    assert_eq!(normalize_donation_body(Some(&long)).chars().count(), 300);
    // control characters do not count towards the limit
    let mixed = format!("{}{}", "\u{1}".repeat(50), "b".repeat(310));
    assert_eq!(normalize_donation_body(Some(&mixed)), "b".repeat(300));
}

#[test]
fn ascii_case() {
    assert_eq!(to_ascii_uppercase("eur é"), "EUR é");
    assert_eq!(to_ascii_lowercase("TrUe"), "true");
}

#[test]
fn trimming_removes_exactly_the_unicode_whitespace() {
    for c in (0u32..=0x10FFFF).filter_map(char::from_u32) {
        let s = c.to_string();
        assert_eq!(trim_string(&s).is_empty(), c.is_whitespace(), "U+{:04X}", c as u32);
    }
}

#[test]
fn names_drop_exactly_the_control_characters() {
    for c in (0u32..=0x10FFFF).filter_map(char::from_u32) {
        let name = normalize_google_name(Some(&format!("a{c}b")));
        assert_eq!(name.contains(c), !c.is_control(), "U+{:04X}", c as u32);
    }
}
