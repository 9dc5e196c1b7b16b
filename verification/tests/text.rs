use radar_lib::text::{
    contains_str, find_char, find_str, is_less, is_space, join_chars, parse_number, parse_u16,
    piece_of, push_decimal, remove_str, shorter_than, split_chars, split_lines, split_words,
    starts_with_str, strip_leading, strip_prefix, to_chars, to_text, trim_chars,
};

fn chars(s: &str) -> Vec<char> {
    s.chars().collect()
}

fn strings(v: &Vec<Vec<char>>) -> Vec<String> {
    v.iter().map(|p| p.iter().collect()).collect()
}

#[test]
fn characters_and_text_convert_both_ways() {
    assert_eq!(to_chars("héllo\n"), chars("héllo\n"));
    assert_eq!(to_text(&chars("héllo\n")), "héllo\n");
    assert_eq!(to_text(&[]), "");
}

#[test]
fn split_gives_one_piece_more_than_separators() {
    for text in ["a:b:c", "", ":", "a::b", ":a:", "no separator"] {
        let expected: Vec<String> = text.split(':').map(|s| s.to_string()).collect();
        assert_eq!(strings(&split_chars(&chars(text), ':')), expected, "{:?}", text);
    }
}

#[test]
fn lines_end_at_line_feeds() {
    for text in ["a\nb", "a\nb\n", "", "\n", "a\r\nb\r\n", "a\r", "a\n\nb", "\r\n", "x\r\r\ny"] {
        let expected: Vec<String> = text.lines().map(|s| s.to_string()).collect();
        assert_eq!(strings(&split_lines(&chars(text))), expected, "{:?}", text);
    }
}

#[test]
fn trim_drops_white_space_at_both_ends() {
    for text in ["  a b \t\n", "", "   ", "x", "\u{a0}x\u{3000}", " \u{2003}y z\u{85}"] {
        assert_eq!(to_text(trim_chars(&chars(text))), text.trim(), "{:?}", text);
    }
}

#[test]
fn white_space_is_what_the_character_tables_say() {
    for code in 0u32..=0x10ffff {
        if let Some(c) = char::from_u32(code) {
            assert_eq!(is_space(c), c.is_whitespace(), "U+{:04X}", code);
        }
    }
}

#[test]
fn words_are_runs_without_white_space() {
    for text in ["nameserver 10.0.0.1", "  a  b\tc\n", "", "   ", "one"] {
        let expected: Vec<String> = text.split_whitespace().map(|s| s.to_string()).collect();
        assert_eq!(strings(&split_words(&chars(text))), expected, "{:?}", text);
    }
}

#[test]
fn search_finds_the_first_occurrence() {
    let text = chars("abcabc");
    assert_eq!(find_str(&text, "bc"), Some(1));
    assert_eq!(find_str(&text, "cb"), None);
    assert_eq!(find_str(&text, ""), Some(0));
    assert_eq!(find_str(&chars(""), ""), Some(0));
    assert_eq!(find_str(&text, "abcabcd"), None);
    assert_eq!(find_char(&text, 'c'), Some(2));
    assert_eq!(find_char(&text, 'x'), None);
    assert!(contains_str(&text, "cab"));
    assert!(!contains_str(&text, "ac"));
    assert!(starts_with_str(&text, "abc"));
    assert!(!starts_with_str(&text, "bc"));
}

#[test]
fn numbers_are_read_as_the_standard_library_reads_them() {
    for text in ["0", "80", "65535", "65536", "+22", "-1", "", "+", "12a", " 12", "007", "99999999999999999999"] {
        assert_eq!(parse_u16(&chars(text)), text.parse::<u16>().ok(), "{:?}", text);
    }
    for text in ["18446744073709551615", "18446744073709551616", "3", "+0", "1_0"] {
        assert_eq!(parse_number(&chars(text), u64::MAX), text.parse::<u64>().ok(), "{:?}", text);
    }
    assert_eq!(parse_number(&chars("256"), 255), None);
    assert_eq!(parse_number(&chars("255"), 255), Some(255));
}

#[test]
fn numbers_are_written_in_decimal() {
    for n in [0u64, 7, 10, 80, 443, 65535, 1000000, u64::MAX] {
        let mut out = chars("p=");
        push_decimal(&mut out, n);
        assert_eq!(to_text(&out), format!("p={}", n));
    }
}

#[test]
fn removal_takes_out_every_occurrence() {
    for (text, pattern) in [
        ("_http._tcp.local.", "._tcp.local."),
        ("_http", "_"),
        ("aaa", "aa"),
        ("abab", "ab"),
        ("abc", ""),
        ("", "x"),
        ("xxabxx", "x"),
    ] {
        assert_eq!(to_text(&remove_str(&chars(text), pattern)), text.replace(pattern, ""), "{:?}", text);
    }
}

#[test]
fn joining_puts_the_separator_between_pieces() {
    let pieces = vec![chars("a"), chars(""), chars("bc")];
    assert_eq!(to_text(&join_chars(&pieces, ", ")), "a, , bc");
    assert_eq!(to_text(&join_chars(&vec![chars("only")], ", ")), "only");
    assert_eq!(to_text(&join_chars(&Vec::new(), ", ")), "");
}

#[test]
fn byte_length_counts_utf8_bytes() {
    for text in ["", "abc", "héllo", "日本語", "🙂x"] {
        for limit in [0u32, 1, 3, 4, 6, 7, 9, 10, 30] {
            assert_eq!(shorter_than(&chars(text), limit), text.len() < limit as usize, "{:?} {}", text, limit);
        }
    }
}

#[test]
fn dictionary_order_is_that_of_strings() {
    let texts = ["", "a", "ab", "b", "10.0.0.5", "10.0.0.10", "192.168.1.1", "é", "z"];
    for a in texts {
        for b in texts {
            assert_eq!(is_less(&chars(a), &chars(b)), a < b, "{:?} {:?}", a, b);
        }
    }
}

#[test]
fn prefixes_are_stripped() {
    assert_eq!(strip_prefix(&chars("uuid:abc"), "uuid:").map(to_text), Some("abc".to_string()));
    assert_eq!(strip_prefix(&chars("UUID:abc"), "uuid:"), None);
    assert_eq!(to_text(strip_leading(&chars("http://http://x"), "http://")), "x");
    assert_eq!(to_text(strip_leading(&chars("https://x"), "http://")), "https://x");
    assert_eq!(piece_of(&chars("a:b:c"), ':', 2).map(|p| to_text(&p)), Some("c".to_string()));
    assert_eq!(piece_of(&chars("a:b:c"), ':', 3), None);
}

fn next(state: &mut u64) -> u64 {
    *state = state.wrapping_mul(6364136223846793005).wrapping_add(1442695040888963407);
    *state >> 33
}

fn sample(state: &mut u64, alphabet: &[char], max_len: u64) -> String {
    let len = next(state) % (max_len + 1);
    (0..len).map(|_| alphabet[(next(state) % alphabet.len() as u64) as usize]).collect()
}

#[test]
fn text_functions_agree_with_the_standard_library_on_many_texts() {
    let alphabet = ['a', 'b', ':', '.', ' ', '\n', '\r', '\t', '+', '0', '1', '9', '_', '\u{a0}', 'é'];
    let mut state = 7u64;
    for _ in 0..4000 {
        let text = sample(&mut state, &alphabet, 12);
        let pattern = sample(&mut state, &alphabet, 3);
        let other = sample(&mut state, &alphabet, 12);
        let t = chars(&text);
        let split: Vec<String> = text.split(':').map(|s| s.to_string()).collect();
        assert_eq!(strings(&split_chars(&t, ':')), split, "{:?}", text);
        let lines: Vec<String> = text.lines().map(|s| s.to_string()).collect();
        assert_eq!(strings(&split_lines(&t)), lines, "{:?}", text);
        let words: Vec<String> = text.split_whitespace().map(|s| s.to_string()).collect();
        assert_eq!(strings(&split_words(&t)), words, "{:?}", text);
        assert_eq!(to_text(trim_chars(&t)), text.trim(), "{:?}", text);
        assert_eq!(parse_u16(&t), text.parse::<u16>().ok(), "{:?}", text);
        assert_eq!(
            find_str(&t, &pattern),
            text.find(pattern.as_str()).map(|i| text[..i].chars().count()),
            "{:?} {:?}",
            text,
            pattern
        );
        assert_eq!(contains_str(&t, &pattern), text.contains(pattern.as_str()), "{:?} {:?}", text, pattern);
        assert_eq!(starts_with_str(&t, &pattern), text.starts_with(pattern.as_str()), "{:?} {:?}", text, pattern);
        assert_eq!(to_text(&remove_str(&t, &pattern)), text.replace(pattern.as_str(), ""), "{:?} {:?}", text, pattern);
        assert_eq!(
            to_text(strip_leading(&t, &pattern)),
            if pattern.is_empty() { text.as_str() } else { text.trim_start_matches(pattern.as_str()) },
            "{:?} {:?}",
            text,
            pattern
        );
        assert_eq!(is_less(&t, &chars(&other)), text < other, "{:?} {:?}", text, other);
        assert_eq!(shorter_than(&t, 9), text.len() < 9, "{:?}", text);
    }
}
