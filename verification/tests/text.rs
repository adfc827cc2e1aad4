use ninoverse::numbers::{
    format_i64, format_u64, parse_i32, parse_i64, parse_u16, parse_u64, IntErrorKind,
};
use ninoverse::secret_map::{comes_before, SecretMap};
use ninoverse::text::{
    find_text, has_prefix, has_suffix, is_blank, is_space, join_texts, lines_of,
    remove_whitespace, split_text, split_text_at, split_text_once, split_text_once_at,
    splitn_text, take_word, trim_blank_text, trim_both_text, trim_end_text, trim_start_text,
    trim_text, upper_char, without_prefix,
};

const SAMPLES: [&str; 14] = [
    "", " ", "a", "a b", "  a\tb \n", "a,b,,c", ",", "\r\n", "x\r\ny\n\nz\r", "\u{a0}é\u{3000}",
    "\"a\"", "//a/b//", "a: b: c", "\0\u{7f}x\u{85}",
];

#[test]
fn split_and_join_are_inverse() {
    for sample in SAMPLES {
        let pieces = split_text(sample, ',');
        let expected: Vec<&str> = sample.split(',').collect();
        assert_eq!(pieces, expected);
        assert_eq!(join_texts(&pieces, ","), sample);
        assert_eq!(split_text(&join_texts(&pieces, ","), ','), pieces);
    }
}

#[test]
fn texts_are_cut_like_std_cuts_them() {
    for sample in SAMPLES {
        let expected: Vec<&str> = sample.splitn(3, ',').collect();
        assert_eq!(splitn_text(sample, ',', 3), expected);
        let expected: Vec<&str> = sample.split("\r\n").collect();
        assert_eq!(split_text_at(sample, "\r\n"), expected);
        let expected: Vec<&str> = sample.lines().collect();
        assert_eq!(lines_of(sample), expected);
        assert_eq!(
            split_text_once(sample, ','),
            sample.split_once(',').map(|(a, b)| (a.to_string(), b.to_string()))
        );
        assert_eq!(
            split_text_once_at(sample, ": "),
            sample.split_once(": ").map(|(a, b)| (a.to_string(), b.to_string()))
        );
        assert_eq!(trim_text(sample), sample.trim());
        assert_eq!(trim_end_text(sample, '/'), sample.trim_end_matches('/'));
        assert_eq!(trim_start_text(sample, '/'), sample.trim_start_matches('/'));
        assert_eq!(trim_both_text(sample, '"'), sample.trim_matches('"'));
        assert_eq!(
            trim_blank_text(sample),
            sample.trim_matches(|c: char| c.is_whitespace() || c.is_control())
        );
        assert_eq!(
            remove_whitespace(sample),
            sample.split_whitespace().collect::<String>()
        );
        assert_eq!(has_prefix(sample, "a"), sample.starts_with('a'));
        assert_eq!(has_suffix(sample, "c"), sample.ends_with('c'));
        assert_eq!(
            without_prefix(sample, "a").as_deref(),
            sample.strip_prefix("a")
        );
        let (word, rest) = take_word(sample);
        let mut words = sample.split_whitespace();
        assert_eq!(word, words.next().unwrap_or_default());
        let left: Vec<&str> = rest.split_whitespace().collect();
        assert_eq!(left, words.collect::<Vec<&str>>());
    }
    assert_eq!(find_text("abcabc", "ca"), Some(2));
    assert_eq!(find_text("abc", "x"), None);
}

#[test]
fn white_space_is_what_std_takes_for_it() {
    for c in '\0'..=char::MAX {
        assert_eq!(is_space(c), c.is_whitespace(), "{:?}", c);
        assert_eq!(is_blank(c), c.is_whitespace() || c.is_control(), "{:?}", c);
        assert_eq!(upper_char(c), c.to_ascii_uppercase(), "{:?}", c);
    }
}

#[test]
fn integers_are_read_like_std_reads_them() {
    let samples = [
        "", "+", "-", "0", "-0", "+7", "007", "12", "-12", "1 2", " 1", "65535", "65536",
        "2147483647", "2147483648", "-2147483648", "-2147483649", "9223372036854775807",
        "9223372036854775808", "-9223372036854775808", "-9223372036854775809",
        "18446744073709551615", "18446744073709551616", "99999999999999999999x", "0x1", "--1",
        "\u{664}", "-99999999999999999999999",
    ];
    for sample in samples {
        let message = |error: IntErrorKind| error.message();
        assert_eq!(
            parse_i32(sample).map_err(message),
            sample.parse::<i32>().map_err(|error| error.to_string()),
            "{}",
            sample
        );
        assert_eq!(
            parse_i64(sample).map_err(message),
            sample.parse::<i64>().map_err(|error| error.to_string()),
            "{}",
            sample
        );
        assert_eq!(
            parse_u16(sample).map_err(message),
            sample.parse::<u16>().map_err(|error| error.to_string()),
            "{}",
            sample
        );
        assert_eq!(
            parse_u64(sample).map_err(message),
            sample.parse::<u64>().map_err(|error| error.to_string()),
            "{}",
            sample
        );
    }
}

#[test]
fn written_integers_are_read_back() {
    for number in [0, 7, -7, 10, 100, i64::MIN, i64::MAX] {
        assert_eq!(format_i64(number), number.to_string());
        assert_eq!(parse_i64(&format_i64(number)).ok(), Some(number));
    }
    for number in [0, 9, 10, 12345678901234567890, u64::MAX] {
        assert_eq!(format_u64(number), number.to_string());
        assert_eq!(parse_u64(&format_u64(number)).ok(), Some(number));
    }
}

#[test]
fn secret_map_keeps_its_names_in_order() {
    let map = SecretMap::new()
        .insert("b".to_string(), "2".to_string())
        .insert("a".to_string(), "1".to_string())
        .insert("b".to_string(), "3".to_string());
    assert_eq!(map.len(), 2);
    assert_eq!(map.get("b").as_deref(), Some("3"));
    assert_eq!(map.get("c"), None);
    assert_eq!(
        map.all(),
        vec![
            ("a".to_string(), "1".to_string()),
            ("b".to_string(), "3".to_string()),
        ]
    );
    for (a, b) in [("a", "b"), ("", "a"), ("a", "ab"), ("Z", "a"), ("é", "\u{ffff}"), ("b", "a"), ("a", "a")] {
        assert_eq!(comes_before(a, b), a < b, "{} {}", a, b);
    }
}
