//! Strings: trimming, splitting, cutting, padding and setting into lines.

use apr::text::{
    chars_of, pad_left, pad_right, repeat, rows_of, same, split_words, starts_with, to_decimal,
    trim, trunc, truncatable, wrap,
};

fn strings(list: &[&str]) -> Vec<String> {
    list.iter().map(|s| s.to_string()).collect()
}

#[test]
fn trimming_agrees_with_std_on_every_character() {
    for c in '\0'..=char::MAX {
        let s = format!("{}x{}", c, c);
        assert_eq!(trim(&s), s.trim(), "{:?}", c);
    }
}

#[test]
fn trimming_keeps_inner_white_space() {
    assert_eq!(trim(""), "");
    assert_eq!(trim(" \t\n"), "");
    assert_eq!(trim("  a b\u{3000}"), "a b");
    assert_eq!(trim("yes"), "yes");
}

#[test]
fn splitting_agrees_with_std() {
    for s in ["", " ", "one", " one  two ", "a\u{2009}b\u{85}c", "tab\tnew\nline", "é ü\u{a0}ß"] {
        let expected: Vec<&str> = s.split_whitespace().collect();
        assert_eq!(split_words(s), expected);
    }
}

#[test]
fn words_hold_all_but_white_space() {
    let s = "  The quick\tbrown\u{2003}fox ";
    let joined: String = split_words(s).concat();
    let kept: String = s.chars().filter(|c| !c.is_whitespace()).collect();
    assert_eq!(joined, kept);
}

#[test]
fn decimals() {
    assert_eq!(to_decimal(0), "0");
    assert_eq!(to_decimal(10), "10");
    assert_eq!(to_decimal(9_876_543_210), "9876543210");
    assert_eq!(to_decimal(u128::MAX), u128::MAX.to_string());
}

#[test]
fn padding_counts_characters() {
    assert_eq!(pad_right("ab", 5), "ab   ");
    assert_eq!(pad_left("ab", 5), "   ab");
    assert_eq!(pad_right("–é", 4), format!("{:<4}", "–é"));
    assert_eq!(pad_left("–é", 4), format!("{:>4}", "–é"));
    assert_eq!(pad_right("abcdef", 3), "abcdef");
    assert_eq!(pad_left("", 0), "");
}

#[test]
fn repetition() {
    assert_eq!(repeat('─', 3), "───");
    assert_eq!(repeat('x', 0), "");
}

#[test]
fn comparisons() {
    assert!(same("yes", "yes"));
    assert!(!same("yes", "Yes"));
    assert!(starts_with("linux-lts", "linux-"));
    assert!(!starts_with("linux", "linux-"));
    assert!(starts_with("anything", ""));
    assert_eq!(chars_of("aé…"), vec!['a', 'é', '…']);
}

#[test]
fn cutting_counts_bytes() {
    assert_eq!(trunc("glibc", 5), "glibc");
    assert_eq!(trunc("glibc-locales", 6), "glibc…");
    assert_eq!(trunc("abc", 1), "…");
    assert_eq!(trunc("abc", 0), "…");
    assert_eq!(trunc("", 0), "");
    assert_eq!(trunc("aéb", 4), "aéb");
    assert_eq!(trunc("aébc", 4), "aé…");
}

#[test]
fn cutting_inside_a_character_is_refused() {
    assert!(truncatable("aébc", 4));
    assert!(!truncatable("aébc", 3));
    assert!(truncatable("aébc", 2));
    assert!(truncatable("éé", 0));
    assert!(!truncatable("ééé", 4));
}

#[test]
fn cutting_keeps_the_beginning() {
    for max in 1..40 {
        let s = "extra-cmake-modules-6.7.0-1-any";
        let t = trunc(s, max);
        if s.len() > max {
            assert!(s.starts_with(&t[..max - 1]));
            assert_eq!(t.chars().count(), max);
            assert!(t.ends_with('…'));
        } else {
            assert_eq!(t, s);
        }
    }
}

#[test]
fn wrapping_fills_lines() {
    assert_eq!(wrap("a bb ccc dddd", 6), vec!["a bb", "ccc", "dddd"]);
    assert_eq!(wrap("a bb ccc dddd", 8), vec!["a bb ccc", "dddd"]);
    assert_eq!(wrap("incomprehensibilities x", 5), vec!["incomprehensibilities", "x"]);
    assert_eq!(wrap("a b", 0), vec!["a", "b"]);
    assert!(wrap("  \n ", 10).is_empty());
}

#[test]
fn wrapping_counts_bytes() {
    assert_eq!(wrap("é é", 5), vec!["é é"]);
    assert_eq!(wrap("é é", 4), vec!["é", "é"]);
}

#[test]
fn wrapping_keeps_the_words() {
    let s = "Library for handling  cryptographic keys, certificates and tokens";
    for width in 0..80 {
        let lines = wrap(s, width);
        let words: Vec<&str> = s.split_whitespace().collect();
        assert_eq!(lines.join(" "), words.join(" "));
        for l in &lines {
            assert!(l.len() <= width || !l.contains(' '));
        }
    }
}

#[test]
fn rows_of_names() {
    let names = strings(&["glibc", "zlib", "xz"]);
    assert_eq!(rows_of(&names, 13), vec!["glibc  zlib  ", "xz  "]);
    assert_eq!(rows_of(&names, 12), vec!["glibc  ", "zlib  xz  "]);
    assert_eq!(rows_of(&names, 0), vec!["glibc  ", "zlib  ", "xz  "]);
    assert!(rows_of(&strings(&[]), 9).is_empty());
}

#[test]
fn rows_keep_the_names() {
    let names = strings(&["a", "", "libfoo", "bär", "quite-a-long-name"]);
    let all: String = names.iter().map(|n| format!("{}  ", n)).collect();
    for width in 0..40 {
        let rows = rows_of(&names, width);
        assert_eq!(rows.concat(), all);
        for r in &rows {
            assert!(r.len() <= width || names.iter().any(|n| format!("{}  ", n) == *r));
        }
    }
}
