use cytube_generator::text::{
    chars_of, copy_range, decimal_string, find_from, lowercase_string, parse_u16_chars,
    parse_u64_chars, push_decimal, split_chars, split_once_chars, string_of,
};

fn chars(s: &str) -> Vec<char> {
    s.chars().collect()
}

fn texts(pieces: Vec<Vec<char>>) -> Vec<String> {
    pieces.into_iter().map(|p| p.into_iter().collect()).collect()
}

#[test]
fn chars_round_trip() {
    for s in ["", "abc", "héllo wörld", "日本語"] {
        assert_eq!(chars_of(s), chars(s));
        assert_eq!(string_of(&chars(s)), s);
    }
}

#[test]
fn copy_range_takes_the_middle() {
    let s = chars("abcdef");
    assert_eq!(copy_range(&s, 1, 4), chars("bcd"));
    assert_eq!(copy_range(&s, 0, 6), s);
    assert_eq!(copy_range(&s, 3, 3), chars(""));
}

#[test]
fn find_from_finds_the_first_at_or_after() {
    let s = chars("a|b|c");
    assert_eq!(find_from(&s, 0, '|'), 1);
    assert_eq!(find_from(&s, 1, '|'), 1);
    assert_eq!(find_from(&s, 2, '|'), 3);
    assert_eq!(find_from(&s, 4, '|'), 5);
    assert_eq!(find_from(&s, 5, '|'), 5);
}

#[test]
fn split_matches_the_standard_library() {
    for s in ["", "a", "|", "a|", "|a", "a|b|c", "a||b", "||", "stream|index=0|codec_name=h264"] {
        let expected: Vec<String> = s.split('|').map(|p| p.to_string()).collect();
        assert_eq!(texts(split_chars(&chars(s), '|')), expected);
    }
}

#[test]
fn split_keeps_empty_pieces() {
    assert_eq!(texts(split_chars(&chars("a\n\nb\n"), '\n')), vec!["a", "", "b", ""]);
    assert_eq!(texts(split_chars(&chars(""), '\n')), vec![""]);
}

#[test]
fn split_once_cuts_at_the_first_separator() {
    let cut = split_once_chars(&chars("tag:title=a=b"), '=').unwrap();
    assert_eq!(cut, (chars("tag:title"), chars("a=b")));
    let cut = split_once_chars(&chars("=x"), '=').unwrap();
    assert_eq!(cut, (chars(""), chars("x")));
    let cut = split_once_chars(&chars("x="), '=').unwrap();
    assert_eq!(cut, (chars("x"), chars("")));
    assert_eq!(split_once_chars(&chars("novalue"), '='), None);
    assert_eq!(split_once_chars(&chars(""), '='), None);
}

#[test]
fn parse_u16_reads_what_the_standard_library_reads() {
    for s in [
        "0", "7", "007", "1080", "65535", "65536", "99999999999999999999999", "+5", "+", "-1", "",
        " 1", "1 ", "1_0", "0x10", "１２", "++1", "1+", "12a", "+0",
    ] {
        assert_eq!(parse_u16_chars(&chars(s)), s.parse::<u16>().ok(), "{:?}", s);
    }
}

#[test]
fn parse_u64_reads_what_the_standard_library_reads() {
    for s in [
        "0", "128000", "18446744073709551615", "18446744073709551616", "18446744073709551625",
        "99999999999999999999", "+18446744073709551615", "000000000000000000000000001", "-0", "",
        "1.5", "N/A",
    ] {
        assert_eq!(parse_u64_chars(&chars(s)), s.parse::<u64>().ok(), "{:?}", s);
    }
}

#[test]
fn parse_exact_values() {
    assert_eq!(parse_u16_chars(&chars("1080")), Some(1080));
    assert_eq!(parse_u16_chars(&chars("65535")), Some(65535));
    assert_eq!(parse_u16_chars(&chars("65536")), None);
    assert_eq!(parse_u64_chars(&chars("+42")), Some(42));
    assert_eq!(parse_u64_chars(&chars("18446744073709551615")), Some(u64::MAX));
}

#[test]
fn decimal_string_writes_what_the_standard_library_writes() {
    for n in [0u64, 1, 9, 10, 11, 99, 100, 1080, 65535, 65536, u64::MAX, u64::MAX - 1, 1000000] {
        assert_eq!(decimal_string(n), n.to_string());
    }
}

#[test]
fn push_decimal_appends() {
    let mut s = String::from("0:");
    push_decimal(&mut s, 12);
    assert_eq!(s, "0:12");
    push_decimal(&mut s, 0);
    assert_eq!(s, "0:120");
}

#[test]
fn lowercase_changes_ascii_capitals_only() {
    assert_eq!(lowercase_string(&chars("Video")), "video");
    assert_eq!(lowercase_string(&chars("SUBTITLE")), "subtitle");
    assert_eq!(lowercase_string(&chars("aZ09_@[`{")), "az09_@[`{");
    assert_eq!(lowercase_string(&chars("ÀÉ")), "ÀÉ");
    assert_eq!(lowercase_string(&chars("")), "");
}
