use smarthome_model::reading::{
    is_decimal_text, is_zero_text, parse_u32, parse_u8, parse_unsigned, scan_decimal,
};
use smarthome_model::text::{
    chars_of, concatenate, ends_with, remove_char, remove_pattern, split, str_equal, substring, trim,
};

#[test]
fn split_gives_the_pieces_between_separators() {
    assert_eq!(split("a/b/c", '/'), vec!["a", "b", "c"]);
    assert_eq!(split("abc", '/'), vec!["abc"]);
    assert_eq!(split("", '/'), vec![""]);
    assert_eq!(split("/", '/'), vec!["", ""]);
    assert_eq!(split("a//b/", '/'), vec!["a", "", "b", ""]);
    assert_eq!(split("1,2,3", ','), vec!["1", "2", "3"]);
}

#[test]
fn split_agrees_with_std_on_unicode() {
    let samples = ["21.5 \u{b0}C", "gr\u{fc}n/blau", "\u{1F4A1}/x/\u{1F4A1}", "a b  c"];
    for s in samples {
        for sep in ['/', ' ', 'x'] {
            let expected: Vec<&str> = s.split(sep).collect();
            assert_eq!(split(s, sep), expected);
        }
    }
}

#[test]
fn chars_and_substrings() {
    assert_eq!(chars_of("a\u{b0}c"), vec!['a', '\u{b0}', 'c']);
    assert_eq!(substring("a\u{b0}cd", 1, 3), "\u{b0}c");
    assert_eq!(substring("abc", 0, 0), "");
    assert_eq!(concatenate("ab", "cd"), "abcd");
    assert!(str_equal("abc", "abc"));
    assert!(!str_equal("abc", "abd"));
    assert!(!str_equal("abc", "ab"));
}

#[test]
fn remove_char_takes_every_occurrence_out() {
    assert_eq!(remove_char("50%", '%'), "50");
    assert_eq!(remove_char("%5%0%%", '%'), "50");
    assert_eq!(remove_char("50", '%'), "50");
    assert_eq!(remove_char("", '%'), "");
}

#[test]
fn remove_pattern_agrees_with_std_replace() {
    let samples = ["12345 m", "1 m 2 m", " mm", "mmm", "aaa", "aaaa", "21.5 \u{b0}C", "km/hkm/h", ""];
    let patterns = [" m", "mm", "aa", "\u{b0}C", "\u{b0}", "km/h", "W"];
    for s in samples {
        for p in patterns {
            assert_eq!(remove_pattern(s, p), s.replace(p, ""));
        }
    }
}

#[test]
fn trim_agrees_with_std_trim() {
    let samples = ["  a b  ", "\t\n x", "x\u{a0}", "\u{2003}y\u{2003}", "", "   ", "abc"];
    for s in samples {
        assert_eq!(trim(s), s.trim());
    }
}

#[test]
fn whitespace_is_the_listed_code_points() {
    let listed = |c: char| {
        ('\u{9}' <= c && c <= '\u{d}')
            || c == ' '
            || c == '\u{85}'
            || c == '\u{a0}'
            || c == '\u{1680}'
            || ('\u{2000}' <= c && c <= '\u{200a}')
            || c == '\u{2028}'
            || c == '\u{2029}'
            || c == '\u{202f}'
            || c == '\u{205f}'
            || c == '\u{3000}'
    };
    let mut count = 0;
    for code in 0u32..=0x10ffff {
        if let Some(c) = char::from_u32(code) {
            assert_eq!(c.is_whitespace(), listed(c), "U+{:04X}", code);
            if listed(c) {
                count += 1;
                let padded = format!("{}x{}", c, c);
                assert_eq!(trim(&padded), "x");
            }
        }
    }
    assert_eq!(count, 25);
    assert_eq!(trim("\u{200b}x"), "\u{200b}x");
}

#[test]
fn ends_with_agrees_with_std() {
    assert!(ends_with("l1_strom", "strom"));
    assert!(ends_with("strom", "strom"));
    assert!(!ends_with("trom", "strom"));
    assert!(!ends_with("stromer", "strom"));
    assert!(ends_with("abc", ""));
}

#[test]
fn whole_numbers_are_read_like_std_reads_them() {
    let samples = [
        "0", "7", "42", "255", "256", "100", "+5", "+", "", "-1", "-0", " 1", "1 ", "1.0", "0007",
        "00000000000000000000000255", "4294967295", "4294967296", "99999999999999999999", "ON",
        "\u{661}",
    ];
    for s in samples {
        assert_eq!(parse_u8(s), s.parse::<u8>().ok(), "u8 of {:?}", s);
        assert_eq!(parse_u32(s), s.parse::<u32>().ok(), "u32 of {:?}", s);
    }
    assert_eq!(parse_unsigned("1000", 999), None);
    assert_eq!(parse_unsigned("999", 999), Some(999));
}

#[test]
fn decimal_readings_are_what_std_reads_as_floats() {
    let samples = [
        "0", "1", "-1", "+1", "1.5", "-1.5", ".5", "5.", ".", "", "+", "-", "1e5", "1E5", "1e+5",
        "1e-5", "1e", "1e+", "e5", ".e5", "1.e5", ".5e-3", "1.2.3", "1 ", " 1", "1,5", "12a",
        "inf", "-inf", "+inf", "Infinity", "INFINITY", "infinit", "nan", "NaN", "-nan", "nanx",
        "0x10", "1_000", "130.75", "21.5", "000.000", "1e400", "1e-400", "--1", "+-1", "1e5.5",
        "\u{661}", "NULL", "ON",
    ];
    for s in samples {
        assert_eq!(is_decimal_text(s), s.parse::<f64>().is_ok(), "f64 of {:?}", s);
        assert_eq!(is_decimal_text(s), s.parse::<f32>().is_ok(), "f32 of {:?}", s);
    }
}

#[test]
fn zero_readings_have_only_zero_digits() {
    for s in ["0", "0.0", "-0", "+0.00", ".0", "0.", "0e5", "0.0E-3", "000"] {
        assert!(is_zero_text(s), "{:?}", s);
        assert_eq!(s.parse::<f32>().unwrap(), 0.0);
    }
    for s in ["1", "0.1", "-0.001", "100", "1e-3", "inf", "nan", "", "x", "0x"] {
        assert!(!is_zero_text(s), "{:?}", s);
    }
    let scan = scan_decimal("0.50");
    assert!(scan.decimal);
    assert!(!scan.zero);
}
