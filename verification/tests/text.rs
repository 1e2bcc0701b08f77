use onerom_cli::json::unescape;
use onerom_cli::number::{parse_u16, to_decimal};
use onerom_cli::order::sort_strings;
use onerom_cli::text::{cut, join_strings, pieces, same_except_case, trimmed, without_prefix};

#[test]
fn decimals() {
    for n in [0, 7, 10, 65535, u64::MAX] {
        assert_eq!(to_decimal(n), n.to_string());
    }
    for text in ["0", "+0", "65535", "65536", "+", "-0", "", "1a", "٣", "000001", "99999999999"] {
        assert_eq!(parse_u16(text), text.parse::<u16>().ok());
    }
    for n in [0u16, 1, 999, 65535] {
        assert_eq!(parse_u16(&to_decimal(n as u64)), Some(n));
    }
}

#[test]
fn sorting() {
    let sort = |list: &[&str]| sort_strings(list.iter().map(|s| s.to_string()).collect());
    assert_eq!(sort(&["b", "", "a", "B", "ab", "a"]), ["", "B", "a", "a", "ab", "b"]);
    // By code points, as the bytes of UTF-8 are.
    assert_eq!(sort(&["\u{10000}", "\u{ffff}", "é", "z"]), ["z", "é", "\u{ffff}", "\u{10000}"]);
}

#[test]
fn taking_apart() {
    assert_eq!(cut("a=b=c", '='), Some(("a", "b=c")));
    assert_eq!(cut("é=", '='), Some(("é", "")));
    assert_eq!(cut("abc", '='), None);
    assert_eq!(pieces("a,,b,", ','), ["a", "", "b", ""]);
    assert_eq!(pieces("", ','), [""]);
    assert_eq!(without_prefix("file=x", "file="), Some("x"));
    assert_eq!(without_prefix("fil", "file="), None);
    let list = ["a".to_string(), "b".to_string()];
    assert_eq!(join_strings(&list.to_vec(), ", "), "a, b");
    assert_eq!(join_strings(&vec![], ", "), "");
}

#[test]
fn trimming() {
    for text in ["", " ", "a", " a ", "\u{2003}\ta b\u{85}\n", "\u{200b}a", "\u{a0}é\u{3000}"] {
        assert_eq!(trimmed(text), text.trim());
    }
    for n in 0..0x3100u32 {
        if let Some(c) = char::from_u32(n) {
            let text = format!("{c}x{c}");
            assert_eq!(trimmed(&text), text.trim());
        }
    }
}

#[test]
fn letter_case() {
    assert!(same_except_case("MHz", "mhz"));
    assert!(!same_except_case("É", "é"));
    assert!(!same_except_case("a", "ab"));
    assert!(!same_except_case("@", "`"));
}

#[test]
fn escapes() {
    assert_eq!(unescape("plain é"), Some("plain é".to_string()));
    assert_eq!(unescape("\\u0041\\n"), Some("A\n".to_string()));
    assert_eq!(unescape("\\\""), Some("\"".to_string()));
    assert_eq!(unescape("\""), None);
    assert_eq!(unescape("\\"), None);
    assert_eq!(unescape("\\x"), None);
    assert_eq!(unescape("\n"), None);
    assert_eq!(unescape("\u{7f}"), Some("\u{7f}".to_string()));
    assert_eq!(unescape(""), Some(String::new()));
}
