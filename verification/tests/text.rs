use rqmd::float_order::{ge, gt, key32_of, key_of, INFINITY_BITS};
use rqmd::ranking::rank_descending;
use rqmd::snippet::add_line_numbers;
use rqmd::text::chars::{
    ascii_lower_text, contains_text, join, pad_start, strip_end, strip_start, take_chars, trim,
    trim_end, trim_start, white_space,
};
use rqmd::text::hex::{hex_of, percent_encode, UriPart};
use rqmd::text::number::{decimal_of, parse_signed, parse_unsigned, signed_decimal_of};
use rqmd::text::search::{
    contains, ends_with, replace, replace_char, split_char, split_words, starts_with, tail_after,
};
use rqmd::virtual_path::build_virtual_path;

#[test]
fn white_space_is_what_the_standard_library_takes_for_it() {
    for n in 0..=0x10ffffu32 {
        if let Some(c) = char::from_u32(n) {
            assert_eq!(white_space(c), c.is_whitespace(), "{:x}", n);
        }
    }
}

#[test]
fn texts_are_trimmed_like_the_standard_library_does() {
    for s in ["", "  ", " a b ", "\u{3000}x\u{a0}", "x", "\n\ta"] {
        assert_eq!(trim(s), s.trim());
        assert_eq!(trim_start(s), s.trim_start());
        assert_eq!(trim_end(s), s.trim_end());
        let words: Vec<&str> = s.split_whitespace().collect();
        assert_eq!(split_words(s), words);
    }
    assert_eq!(strip_start("//a/", '/'), "a/");
    assert_eq!(strip_end("/a//", '/'), "/a");
}

#[test]
fn texts_are_searched_like_the_standard_library_does() {
    let parts = ["", "a", "b", "ab", "ba", "aab", "日本", "本"];
    for s in ["", "a", "aabab", "日本の本", "banana"] {
        for p in parts {
            assert_eq!(starts_with(s, p), s.starts_with(p));
            assert_eq!(ends_with(s, p), s.ends_with(p));
            assert_eq!(contains(s, p), s.contains(p));
            if !p.is_empty() {
                assert_eq!(replace(s, p, "<>"), s.replace(p, "<>"));
            }
        }
        let pieces: Vec<&str> = s.split('a').collect();
        assert_eq!(split_char(s, 'a'), pieces);
        assert_eq!(join(&split_char(s, 'a'), "a"), s);
        assert_eq!(replace_char(s, 'a', "xy"), s.replace('a', "xy"));
    }
    assert_eq!(tail_after("a/b/c", '/'), "c");
    assert_eq!(tail_after("abc", '/'), "abc");
}

#[test]
fn numbers_are_read_and_written_like_the_standard_library_does() {
    for n in [0u128, 7, 10, 99, 1234567890123456789012345678901234567] {
        assert_eq!(decimal_of(n), n.to_string());
    }
    for n in [0i64, -1, i64::MIN, i64::MAX, 42] {
        assert_eq!(signed_decimal_of(n), n.to_string());
    }
    for s in ["0", "007", "+5", "-5", "", "+", "1a", "18446744073709551615", "18446744073709551616"] {
        assert_eq!(parse_unsigned(s, u64::MAX), s.parse::<u64>().ok(), "{}", s);
        assert_eq!(parse_signed(s), s.parse::<i32>().ok(), "{}", s);
    }
    assert_eq!(parse_signed("-2147483648"), Some(i32::MIN));
    assert_eq!(parse_signed("2147483648"), None);
}

#[test]
fn bytes_are_written_in_hexadecimal_and_percent_codes() {
    assert_eq!(hex_of(&[0, 15, 255]), "000fff");
    assert_eq!(percent_encode("a b/c?", UriPart::Value), "a%20b%2Fc%3F");
    assert_eq!(percent_encode("a b/c", UriPart::Path), "a%20b/c");
    assert_eq!(build_virtual_path("c", "p.md", Some("x y")), "qmd://c/p.md?index=x%20y");
    assert_eq!(build_virtual_path("c", "p.md", None), "qmd://c/p.md");
}

#[test]
fn short_helpers_do_as_they_say() {
    assert_eq!(pad_start("7", 3), "  7");
    assert_eq!(pad_start("1234", 3), "1234");
    assert_eq!(take_chars("日本語", 2), "日本");
    assert_eq!(ascii_lower_text("ÄBC"), "Äbc");
    assert!(contains_text(&vec!["a".to_string()], "a"));
    assert_eq!(add_line_numbers("x\ny", Some(9)), "9: x\n10: y");
    assert_eq!(add_line_numbers("x", None), "1: x");
}

#[test]
fn numbers_are_ordered_by_their_bits() {
    let values = [
        f64::NEG_INFINITY,
        -1.5,
        -0.0,
        0.0,
        f64::MIN_POSITIVE,
        0.1,
        0.3,
        1.0,
        f64::INFINITY,
        f64::NAN,
    ];
    for a in values {
        for b in values {
            assert_eq!(ge(a.to_bits(), b.to_bits()), a >= b, "{} {}", a, b);
            assert_eq!(gt(a.to_bits(), b.to_bits()), a > b, "{} {}", a, b);
            if !a.is_nan() && !b.is_nan() {
                assert_eq!(key_of(a.to_bits()) < key_of(b.to_bits()), a < b);
                let (x, y) = (a as f32, b as f32);
                assert_eq!(key32_of(x.to_bits()) < key32_of(y.to_bits()), x < y);
            }
        }
    }
    assert_eq!(f64::from_bits(INFINITY_BITS), f64::INFINITY);
}

#[test]
fn ranks_are_descending_and_stable() {
    assert_eq!(rank_descending(&[5, 9, 5, 1, 9]), vec![1, 4, 0, 2, 3]);
    assert_eq!(rank_descending(&[]), Vec::<usize>::new());
}
