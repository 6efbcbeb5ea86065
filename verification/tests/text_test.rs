//! Splitting, comparing and writing text.
use cosmic_greeter::text::{
    byte_length, chars_of, concat2, concat3, contains, contains_char, decimal_text, first_piece,
    hex_text, hyphenated, split_on, split_terminator, str_eq, text_at_most,
};

const SAMPLES: [&str; 9] =
    ["", ",", "a", "a,", ",a", "a,b", "a,,b", "us,de,,fr,", "\u{e9}t\u{e9},\u{4e16}"];

#[test]
fn split_agrees_with_std() {
    for text in SAMPLES {
        let expected: Vec<&str> = text.split(',').collect();
        assert_eq!(split_on(text, ','), expected, "{:?}", text);
        let expected: Vec<&str> = text.split_terminator(',').collect();
        assert_eq!(split_terminator(text, ','), expected, "{:?}", text);
        assert_eq!(first_piece(text, ','), text.split(',').next().unwrap_or_default());
    }
}

#[test]
fn joined_pieces_give_the_text_back() {
    for text in SAMPLES {
        assert_eq!(split_on(text, ',').join(","), text);
    }
}

#[test]
fn joined_lists_split_into_themselves() {
    let pieces = vec!["us".to_string(), "".to_string(), "de".to_string()];
    assert_eq!(split_on(&pieces.join(","), ','), pieces);
}

#[test]
fn contains_agrees_with_std() {
    let needles = ["", "a", ",", "a,", "b", ",,", "de", "us,de,,fr,x"];
    for text in SAMPLES {
        for needle in needles {
            assert_eq!(contains(text, needle), text.contains(needle), "{:?} {:?}", text, needle);
        }
        assert_eq!(contains_char(text, ','), text.contains(','));
    }
    assert!(!contains_char("root", '\0'));
    assert!(contains_char("ro\0ot", '\0'));
}

#[test]
fn characters_and_bytes_are_counted() {
    assert_eq!(chars_of("a\u{e9}\u{4e16}"), vec!['a', '\u{e9}', '\u{4e16}']);
    for text in ["", "abc", "\u{7f}\u{80}", "\u{7ff}\u{800}", "\u{ffff}\u{10000}", "\u{10ffff}"] {
        assert_eq!(byte_length(text), text.len(), "{:?}", text);
    }
}

#[test]
fn underscores_become_hyphens() {
    assert_eq!(hyphenated("sr_RS_latin"), "sr-RS-latin");
    assert_eq!(hyphenated("C"), "C");
}

#[test]
fn texts_are_ordered_as_std_orders_them() {
    let texts = ["", "Z", "a", "ab", "b", "\u{e9}", "\u{ffff}", "\u{10000}"];
    for a in texts {
        for b in texts {
            assert_eq!(text_at_most(a, b), a <= b, "{:?} {:?}", a, b);
            assert_eq!(str_eq(a, b), a == b, "{:?} {:?}", a, b);
        }
    }
}

#[test]
fn numbers_are_written_as_std_writes_them() {
    for n in [0usize, 7, 10, 99, 100, 4097, usize::MAX] {
        assert_eq!(decimal_text(n), format!("{}", n));
    }
    for n in [0u64, 9, 10, 15, 16, 255, 0xdead_beef, u64::MAX] {
        assert_eq!(hex_text(n), format!("{:x}", n));
    }
}

#[test]
fn texts_are_joined() {
    assert_eq!(concat2("input-", "DP-1"), "input-DP-1");
    assert_eq!(concat3("a", "", "c"), "ac");
}
