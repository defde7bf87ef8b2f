use treasure_trove::escape::html_escape;

fn by_replacing(s: &str) -> String {
    s.replace('&', "&amp;").replace('<', "&lt;").replace('>', "&gt;")
}

#[test]
fn escape_leaves_plain_text() {
    assert_eq!(html_escape("hammer and nails"), "hammer and nails");
    assert_eq!(html_escape(""), "");
}

#[test]
fn escape_each_special_character() {
    assert_eq!(html_escape("&"), "&amp;");
    assert_eq!(html_escape("<"), "&lt;");
    assert_eq!(html_escape(">"), "&gt;");
}

#[test]
fn escape_markup() {
    assert_eq!(html_escape("<b>nuts & bolts</b>"), "&lt;b&gt;nuts &amp; bolts&lt;/b&gt;");
}

#[test]
fn escape_does_not_touch_quotes() {
    assert_eq!(html_escape("3\" nails 'big'"), "3\" nails 'big'");
}

#[test]
fn escape_escapes_an_entity_again() {
    assert_eq!(html_escape("&amp;"), "&amp;amp;");
}

#[test]
fn escape_agrees_with_three_replacements() {
    for s in ["", "a", "&<>", "<<>>&&", "a&b<c>d", "&lt;", "\u{e9}<\u{fc}>&\u{1f600}", "& & &"] {
        assert_eq!(html_escape(s), by_replacing(s));
    }
}

#[test]
fn escaped_text_holds_no_angle_bracket() {
    for s in ["<script>", "a > b < c", ">>>", "x"] {
        let out = html_escape(s);
        assert!(!out.contains('<'));
        assert!(!out.contains('>'));
    }
}
