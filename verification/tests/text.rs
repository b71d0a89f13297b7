use aperio::text::{ends_with, format_i32, starts_with, trim};

#[test]
fn trim_agrees_with_std_on_unicode_white_space() {
    let samples = [
        "", " ", "abc", "  abc  ", "\t\n\u{b}\u{c}\r x \r\n", "\u{85}a\u{a0}", "\u{1680}\u{2000}b\u{200a}",
        "\u{2028}\u{2029}c\u{202f}\u{205f}\u{3000}", "\u{200b}zero width\u{200b}", "a b  c",
        "\u{feff}bom", "3.12.4\n",
    ];
    for s in samples {
        assert_eq!(trim(s), s.trim(), "input {:?}", s);
    }
}

#[test]
fn format_i32_agrees_with_display() {
    for v in [0, 1, 9, 10, 99, 100, 12345, -1, -10, -987654, i32::MAX, i32::MIN] {
        assert_eq!(format_i32(v), v.to_string());
    }
}

#[test]
fn prefix_and_suffix_agree_with_std() {
    let pairs = [("cpython-3.12", "cpython"), ("cp", "cpython"), ("", ""), ("abc", ""), ("äbc", "ä"), ("x.whl", ".whl")];
    for (s, p) in pairs {
        assert_eq!(starts_with(s, p), s.starts_with(p));
        assert_eq!(ends_with(s, p), s.ends_with(p));
    }
}
