use mousekeys::text::{
    append_int, append_nat, begins_with, chars_of, contains, is_space, parse_bool, parse_i32,
    parse_u64, reads, reads_as_fraction, trim_range,
};

fn trimmed(s: &str) -> String {
    let chars = chars_of(s);
    let (from, to) = trim_range(&chars, 0, chars.len());
    chars[from..to].iter().collect()
}

fn i32_in(s: &str) -> Option<i32> {
    let chars = chars_of(s);
    parse_i32(&chars, 0, chars.len())
}

fn u64_in(s: &str) -> Option<u64> {
    let chars = chars_of(s);
    parse_u64(&chars, 0, chars.len())
}

fn bool_in(s: &str) -> Option<bool> {
    let chars = chars_of(s);
    parse_bool(&chars, 0, chars.len())
}

#[test]
fn white_space_is_what_std_takes_for_it() {
    for n in 0..=0x10ffffu32 {
        if let Some(c) = char::from_u32(n) {
            assert_eq!(is_space(c), c.is_whitespace(), "{:#x}", n);
        }
    }
}

#[test]
fn trimming_takes_white_space_off_both_sides() {
    for s in ["", " ", "\t \n", "a", " a", "a ", "\u{3000}a b\u{a0}\r\n", "  a  b  "] {
        assert_eq!(trimmed(s), s.trim());
        assert_eq!(trimmed(&trimmed(s)), trimmed(s));
        assert_eq!(trimmed(&format!(" \t{}\u{2028}", s)), trimmed(s));
    }
}

#[test]
fn signed_numbers_read_as_std_reads_them() {
    for s in [
        "", "0", "7", "-7", "+7", "-0", "+", "-", "--1", "+-1", "-+1", "1 ", " 1", "1_000", "0x10",
        "2147483647", "2147483648", "-2147483648", "-2147483649", "00000000000000000000012",
        "99999999999999999999999999", "-99999999999999999999999999", "1.5", "a", "\u{661}",
    ] {
        assert_eq!(i32_in(s), s.parse::<i32>().ok(), "{:?}", s);
    }
    assert_eq!(i32_in("-2147483648"), Some(i32::MIN));
}

#[test]
fn unsigned_numbers_read_as_std_reads_them() {
    for s in [
        "", "0", "7", "-7", "+7", "-0", "+", "-", "18446744073709551615", "18446744073709551616",
        "+18446744073709551615", "000000000000000000000000018446744073709551615",
        "99999999999999999999999", "12x", "x12",
    ] {
        assert_eq!(u64_in(s), s.parse::<u64>().ok(), "{:?}", s);
    }
    assert_eq!(u64_in("18446744073709551615"), Some(u64::MAX));
}

#[test]
fn truth_values_read_as_std_reads_them() {
    for s in ["true", "false", "True", "FALSE", "", "1", "0", "yes", "true "] {
        assert_eq!(bool_in(s), s.parse::<bool>().ok(), "{:?}", s);
    }
}

#[test]
fn numbers_are_written_in_decimal_and_read_back() {
    for n in [0, 1, 9, 10, 11, 99, 100, 1_000_001, i32::MAX, -1, -10, -215, i32::MIN] {
        let mut out = String::from("n=");
        append_int(&mut out, n);
        assert_eq!(out, format!("n={}", n));
        assert_eq!(i32_in(&out[2..]), Some(n));
    }
    for n in [0, 9, 10, 12345678901234567890u64, u64::MAX] {
        let mut out = String::new();
        append_nat(&mut out, n);
        assert_eq!(out, n.to_string());
        assert_eq!(u64_in(&out), Some(n));
    }
}

#[test]
fn searching_finds_what_std_finds() {
    for s in ["", "a", "usb", "a usb b", "us b", "usus", "ususb", "\u{fc}usb"] {
        for part in ["", "a", "usb", "b", "ab"] {
            assert_eq!(contains(&chars_of(s), part), s.contains(part), "{:?} {:?}", s, part);
            assert_eq!(begins_with(s, part), s.starts_with(part), "{:?} {:?}", s, part);
        }
    }
}

#[test]
fn reading_compares_whole_parts() {
    let chars = chars_of("tau = 1");
    assert!(reads(&chars, 0, 3, "tau"));
    assert!(!reads(&chars, 0, 4, "tau"));
    assert!(!reads(&chars, 0, 2, "tau"));
    assert!(reads(&chars, 3, 3, ""));
}

fn is_fraction(s: &str) -> bool {
    let chars = chars_of(s);
    reads_as_fraction(&chars, 0, chars.len())
}

#[test]
fn fractions_are_what_std_reads_as_such() {
    for s in [
        "0.2", "100.0", "5", "5.", ".5", ".", "", "+", "-", "+.5", "-5.", "1e5", "1E-5", "1e+5",
        "1e", "1e+", "e5", ".e5", "1.2.3", "1..2", "1.5e3.2", "1e5e5", "inf", "-INF", "+Infinity",
        "infinit", "infinityy", "nan", "NaN", "-nan", "+-1", "1 ", " 1", "1_0", "0x1", "1f", "1,5",
        "none", "\u{661}", "1e99999999999999999999", "1e-99999999999999999999",
        "123456789012345678901234567890.123456789012345678901234567890",
    ] {
        assert_eq!(is_fraction(s), s.parse::<f32>().is_ok(), "{:?}", s);
    }
    assert!(is_fraction("0.2") && !is_fraction("."));
}

#[test]
fn short_fractions_are_what_std_reads_as_such() {
    let alphabet: Vec<char> = "07+-.eEinfaN".chars().collect();
    let mut texts = vec![String::new()];
    for _ in 0..4 {
        let mut longer = Vec::new();
        for text in &texts {
            assert_eq!(is_fraction(text), text.parse::<f32>().is_ok(), "{:?}", text);
            for c in &alphabet {
                longer.push(format!("{}{}", text, c));
            }
        }
        texts = longer;
    }
    for text in &texts {
        assert_eq!(is_fraction(text), text.parse::<f32>().is_ok(), "{:?}", text);
    }
}
