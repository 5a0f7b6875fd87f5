use readql::double::{nearest_to, truncate};
use readql::text::{
    contains_text, eq_ignore_case, is_white_space, parse_i64, push_decimal, replace_all, trim,
};

#[test]
fn white_space_is_that_of_unicode() {
    for c in (0..=0x10ffffu32).filter_map(char::from_u32) {
        assert_eq!(is_white_space(c), c.is_whitespace());
    }
}

#[test]
fn trimming() {
    for text in ["", " ", "a", " a", "a ", "\u{2003}a b\n", "\u{200b}a"] {
        assert_eq!(trim(text), text.trim());
    }
}

#[test]
fn letters_in_either_case() {
    for (a, b) in [("csv", "CSV"), ("a", "b"), ("", ""), ("k", "\u{212a}"), ("ab", "a"), ("[", "{")] {
        assert_eq!(eq_ignore_case(a, b), a.eq_ignore_ascii_case(b));
    }
}

#[test]
fn searching() {
    for (text, pattern) in
        [("", ""), ("a", ""), ("", "a"), ("aab", "ab"), ("abc", "bd"), ("VARCHAR", "CHAR")]
    {
        assert_eq!(contains_text(text, pattern), text.contains(pattern));
    }
}

#[test]
fn replacing() {
    for (text, pattern, by) in
        [("aaa", "aa", "b"), ("", "x", "y"), ("x.x", "x", "xx"), ("abab", "ab", ""), ("abc", "d", "e")]
    {
        assert_eq!(replace_all(text, pattern, by), text.replace(pattern, by));
    }
}

#[test]
fn reading_integers() {
    for text in [
        "0", "-0", "+0", "7", "-7", "+7", "007", "9223372036854775807", "9223372036854775808",
        "-9223372036854775808", "-9223372036854775809", "", "-", "+", "1 ", " 1", "1.0", "--1",
        "99999999999999999999999999", "000000000000000000000000001", "\u{661}", "1e3", "0x10",
    ] {
        assert_eq!(parse_i64(text), text.parse::<i64>().ok(), "{text}");
    }
}

#[test]
fn writing_integers() {
    for n in [0, 9, 10, 99, 100, 65535, u64::MAX] {
        let mut out = String::from("n=");
        push_decimal(&mut out, n);
        assert_eq!(out, format!("n={n}"));
    }
}

#[test]
fn an_integer_reads_back() {
    for i in [i64::MIN, -1, 0, 1, i64::MAX] {
        assert_eq!(parse_i64(&i.to_string()), Some(i));
    }
}

#[test]
fn doubles_without_their_fraction() {
    let mut state = 1u64;
    let mut doubles = vec![
        0.0, -0.0, 0.5, -0.5, 1.0, -1.0, 1.9, -1.9, 4503599627370496.5, 9007199254740993.0,
        9223372036854775807.0, -9223372036854775808.0, 9223372036854774784.0, 1e18, -1e19, 1e300,
        f64::NAN, f64::INFINITY, f64::NEG_INFINITY, f64::MIN_POSITIVE, 5e-324,
    ];
    for _ in 0..100_000 {
        state = state.wrapping_mul(6364136223846793005).wrapping_add(1442695040888963407);
        doubles.push(f64::from_bits(state));
        doubles.push((state as i64 >> (state % 61)) as f64 / 16.0);
    }
    for f in doubles {
        assert_eq!(truncate(f.to_bits()), f as i64, "{f}");
    }
}

#[test]
fn integers_as_doubles() {
    let mut state = 1u64;
    let mut integers = vec![0, 1, -1, i64::MIN, i64::MAX, 1 << 53, (1 << 53) + 1, -(1 << 53) - 1];
    for _ in 0..100_000 {
        state = state.wrapping_mul(6364136223846793005).wrapping_add(1442695040888963407);
        integers.push(state as i64 >> (state % 61));
        integers.push((1i64 << (state % 62)) + (state >> 62) as i64 - 1);
    }
    for i in integers {
        assert_eq!(nearest_to(i), (i as f64).to_bits(), "{i}");
    }
}
