use retro_homepage::battery::parse_percentage;
use retro_homepage::system::{parse_frequency_khz, uptime_field};
use retro_homepage::text::{to_chars, trimmed};

#[test]
fn trims_ascii_and_unicode_whitespace() {
    assert_eq!(trimmed("  Charging \n"), "Charging");
    assert_eq!(trimmed("\u{3000}\u{a0}Good\u{2009}\t"), "Good");
    assert_eq!(trimmed(" \r\n\t "), "");
    assert_eq!(trimmed(""), "");
    assert_eq!(trimmed("a b"), "a b");
}

#[test]
fn trim_agrees_with_std() {
    let samples = [
        "", " ", "x", "  x  ", "\u{85}x\u{1680}", "\u{200b}x", "x\r\n", "\u{202f} mid dle \u{205f}",
    ];
    for s in samples {
        assert_eq!(trimmed(s), s.trim(), "input {:?}", s);
    }
}

#[test]
fn chars_are_kept_in_order() {
    assert_eq!(to_chars("héllo"), vec!['h', 'é', 'l', 'l', 'o']);
    assert_eq!(to_chars(""), Vec::<char>::new());
}

#[test]
fn percentage_parses_signed_decimal() {
    assert_eq!(parse_percentage("85\n"), 85);
    assert_eq!(parse_percentage("  +7 "), 7);
    assert_eq!(parse_percentage("-3"), -3);
    assert_eq!(parse_percentage("-2147483648"), i32::MIN);
    assert_eq!(parse_percentage("2147483647"), i32::MAX);
    assert_eq!(parse_percentage("2147483648"), 0);
    assert_eq!(parse_percentage("abc"), 0);
    assert_eq!(parse_percentage(""), 0);
    assert_eq!(parse_percentage("-"), 0);
    assert_eq!(parse_percentage("+"), 0);
    assert_eq!(parse_percentage("-+5"), 0);
    assert_eq!(parse_percentage("1 2"), 0);
}

#[test]
fn percentage_agrees_with_std() {
    let samples = [
        "0", "007", "+0", "-0", "99", "100", "-1", "12a", "٣", "2147483647", "-2147483649", " 42 ",
        "+-1", "--1", "",
    ];
    for s in samples {
        assert_eq!(parse_percentage(s), s.trim().parse::<i32>().unwrap_or(0), "input {:?}", s);
    }
}

#[test]
fn frequency_agrees_with_std_u32_parse() {
    let samples = [
        "2400000\n", "4294967295", "4294967296", "+1", "-1", "", "1.5", " 800000 ", "0x10", "１",
    ];
    for s in samples {
        assert_eq!(parse_frequency_khz(s), s.trim().parse::<u32>().ok(), "input {:?}", s);
    }
}

#[test]
fn uptime_field_is_first_token() {
    assert_eq!(uptime_field("12345.67 54321.00\n"), Some("12345.67".to_string()));
    assert_eq!(uptime_field("  \t 9.5"), Some("9.5".to_string()));
    assert_eq!(uptime_field(" \n "), None);
    assert_eq!(uptime_field(""), None);
}

#[test]
fn decimal_renderings_read_back() {
    for n in [0u32, 7, 10, 99, 1000, 65535, 2_400_000, u32::MAX] {
        assert_eq!(parse_frequency_khz(&n.to_string()), Some(n));
        assert_eq!(parse_frequency_khz(&format!("{}\n", n)), Some(n));
    }
}

#[test]
fn tokens_agree_with_split_whitespace() {
    let samples = ["a b", "  a\u{2003}b\u{85}c ", "\u{200b}x y", "", "   ", "one", "tab\tsep\nnl"];
    for s in samples {
        assert_eq!(uptime_field(s).as_deref(), s.split_whitespace().next(), "input {:?}", s);
        let cs = to_chars(s);
        let ranges = retro_homepage::text::token_ranges(&cs, 0, cs.len());
        let ours: Vec<String> = ranges.iter().map(|&(a, b)| cs[a..b].iter().collect()).collect();
        let std_tokens: Vec<String> = s.split_whitespace().map(|t| t.to_string()).collect();
        assert_eq!(ours, std_tokens, "input {:?}", s);
    }
}

#[test]
fn lines_agree_with_std() {
    let samples = ["", "\n", "a", "a\n", "a\nb", "a\r\nb\r\n", "a\r", "\r\n\r\n", "x\n\ny\n\n", "a\rb\n"];
    for s in samples {
        let cs = to_chars(s);
        let ranges = retro_homepage::text::line_ranges(&cs);
        let ours: Vec<String> = ranges.iter().map(|&(a, b)| cs[a..b].iter().collect()).collect();
        let std_lines: Vec<String> = s.lines().map(|t| t.to_string()).collect();
        assert_eq!(ours, std_lines, "input {:?}", s);
    }
}
