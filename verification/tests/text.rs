use treasure_trove::text::{
    chars_of, is_space_char, normalize_optional, text_of, trim_bounds, trim_text,
};

fn some(s: &str) -> Option<String> {
    Some(s.to_string())
}

#[test]
fn normalize_absent_stays_absent() {
    assert_eq!(normalize_optional(None), None);
}

#[test]
fn normalize_empty_is_absent() {
    assert_eq!(normalize_optional(some("")), None);
}

#[test]
fn normalize_blank_is_absent() {
    assert_eq!(normalize_optional(some("   ")), None);
    assert_eq!(normalize_optional(some(" \t\r\n ")), None);
    assert_eq!(normalize_optional(some("\u{3000}\u{a0}")), None);
}

#[test]
fn normalize_trims_both_ends() {
    assert_eq!(normalize_optional(some("  Shelf A  ")), some("Shelf A"));
    assert_eq!(normalize_optional(some("\tbin 7\n")), some("bin 7"));
}

#[test]
fn normalize_keeps_inner_space() {
    assert_eq!(normalize_optional(some(" top   drawer ")), some("top   drawer"));
}

#[test]
fn normalize_keeps_clean_text() {
    assert_eq!(normalize_optional(some("Spring 1")), some("Spring 1"));
}

#[test]
fn normalize_is_idempotent() {
    for s in ["", " ", " a ", "a b", "\u{2003}x\u{2003}", "  \n"] {
        let once = normalize_optional(some(s));
        let twice = normalize_optional(once.clone());
        assert_eq!(once, twice);
    }
}

#[test]
fn normalize_never_yields_empty_text() {
    for s in ["", " ", "\n\n", " a ", "\u{85}"] {
        if let Some(t) = normalize_optional(some(s)) {
            assert!(!t.is_empty());
        }
    }
}

#[test]
fn white_space_is_what_std_calls_white_space() {
    let mut n: u32 = 0;
    while n <= 0x10ffff {
        if let Some(c) = char::from_u32(n) {
            assert_eq!(is_space_char(c), c.is_whitespace(), "U+{:04X}", n);
        }
        n += 1;
    }
}

#[test]
fn trim_text_agrees_with_std_trim() {
    let samples = [
        "",
        " ",
        "a",
        " a",
        "a ",
        "  3 boxes of nails\nhammer  ",
        "\u{2000}\u{2001}wide\u{200a}",
        "\u{200b}zero width is kept\u{200b}",
        "\u{180e}mongolian vowel separator is kept",
        "\u{e9} \u{fc} \u{1f600} ",
        "\r\n\t x \r\n\t",
    ];
    for s in samples {
        assert_eq!(trim_text(s), s.trim());
    }
}

#[test]
fn chars_of_lists_characters_not_bytes() {
    assert_eq!(chars_of("a\u{e9}\u{1f600}"), vec!['a', '\u{e9}', '\u{1f600}']);
    assert_eq!(chars_of(""), Vec::<char>::new());
}

#[test]
fn text_of_takes_a_slice() {
    let chars = chars_of("h\u{e9}llo w\u{f6}rld");
    assert_eq!(text_of(&chars, 0, 5), "h\u{e9}llo");
    assert_eq!(text_of(&chars, 6, 11), "w\u{f6}rld");
    assert_eq!(text_of(&chars, 3, 3), "");
}

#[test]
fn trim_bounds_of_a_slice() {
    let chars = chars_of("ab  cd  ef");
    assert_eq!(trim_bounds(&chars, 2, 8), (4, 6));
    assert_eq!(trim_bounds(&chars, 2, 4), (4, 4));
    assert_eq!(trim_bounds(&chars, 0, 10), (0, 10));
    assert_eq!(trim_bounds(&chars, 5, 5), (5, 5));
}

#[test]
fn trimming_twice_is_trimming_once() {
    for s in ["", " ", " a ", "a  b", "\n\tx y\r\n", "\u{3000}z\u{3000}"] {
        let once = trim_text(s);
        assert_eq!(trim_text(&once), once);
    }
}
