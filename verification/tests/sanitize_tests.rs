use drop_logger::sanitize::Sanitizer;

fn sanitizer() -> Sanitizer {
    Sanitizer::new().expect("the pattern compiles")
}

#[test]
fn sanitize_removes_punctuation() {
    assert_eq!(sanitizer().sanitize("Iron <b>Sword</b>!"), "Iron bSwordb");
}

#[test]
fn sanitize_keeps_hyphen_and_apostrophe() {
    assert_eq!(
        sanitizer().sanitize("King's Blade-of_Doom 2"),
        "King's Blade-of_Doom 2"
    );
}

#[test]
fn sanitize_removes_rather_than_replaces() {
    assert_eq!(sanitizer().sanitize("a;b"), "ab");
    assert_eq!(sanitizer().sanitize("$0$1${x}"), "01x");
}

#[test]
fn sanitize_empty_text() {
    assert_eq!(sanitizer().sanitize(""), "");
    assert_eq!(sanitizer().sanitize("!?#%"), "");
}

#[test]
fn sanitize_keeps_every_kind_of_whitespace() {
    let text = "a\tb\nc\u{b}d\u{c}e\rf g\u{85}h\u{a0}i\u{1680}j\u{2003}k\u{2028}l\u{2029}m\u{202f}n\u{205f}o\u{3000}p";
    assert_eq!(sanitizer().sanitize(text), text);
}

#[test]
fn sanitize_removes_what_only_looks_like_whitespace() {
    assert_eq!(sanitizer().sanitize("a\u{200b}b\u{feff}c\u{1f}d"), "abcd");
}

#[test]
fn sanitize_removes_letters_outside_ascii() {
    assert_eq!(sanitizer().sanitize("Épée d'été ß ９"), "pe d't  ");
}

#[test]
fn sanitize_is_idempotent_on_samples() {
    let s = sanitizer();
    for text in ["", "plain", "a<b>c", "tab\tand\u{a0}space", "'; DROP TABLE drops; --", "naïve café"] {
        let once = s.sanitize(text);
        assert_eq!(s.sanitize(&once), once);
        assert!(once.chars().all(|c| c.is_ascii_alphanumeric()
            || c == '_'
            || c == '-'
            || c == '\''
            || c.is_whitespace()));
    }
}

#[test]
fn the_pattern_of_the_sanitizer_compiles() {
    assert!(Sanitizer::new().is_some());
}
