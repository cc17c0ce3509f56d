use trigger_dictionary::command::parse_add;
use trigger_dictionary::text::{contains, is_space, parse_decimal, parse_u32, parse_u8, trim};

fn stored_trigger(trigger: &str) -> String {
    parse_add(&format!("/add all {}=x", trigger)).ok().unwrap().trigger
}

#[test]
fn white_space_is_what_the_standard_library_says() {
    for code in 0u32..0x3100 {
        if let Some(c) = char::from_u32(code) {
            assert_eq!(is_space(c), c.is_whitespace(), "U+{:04X}", code);
        }
    }
    assert!(!is_space('\u{feff}'));
    assert!(!is_space('\u{1f600}'));
}

#[test]
fn trim_drops_white_space_at_both_ends() {
    assert_eq!(trim("  a b \t\n"), "a b");
    assert_eq!(trim("\u{a0}\u{3000}x\u{2028}\u{85}"), "x");
    assert_eq!(trim("\u{200b}x\u{200b}"), "\u{200b}x\u{200b}");
    assert_eq!(trim("   "), "");
    assert_eq!(trim(""), "");
    assert_eq!(trim("x"), "x");
    for s in [" a", "a ", " \u{e9} \u{1f600} ", "\r\n\u{2003}q\u{2003}\u{1680}", "\u{b}\u{c}"] {
        assert_eq!(trim(s), s.trim());
    }
}

#[test]
fn contains_finds_contiguous_runs() {
    assert!(contains("good morning", "morn"));
    assert!(contains("good morning", ""));
    assert!(contains("", ""));
    assert!(contains("abc", "abc"));
    assert!(contains("aab", "ab"));
    assert!(contains("\u{43f}\u{440}\u{438}\u{432}\u{435}\u{442}", "\u{438}\u{432}"));
    assert!(!contains("abc", "abcd"));
    assert!(!contains("abc", "ac"));
    assert!(!contains("", "a"));
    assert!(!contains("good morning", "Morn"));
    let words = ["", "a", "ab", "ba", "aba", "abab", "\u{e9}a", "a\u{e9}", "baab"];
    for hay in words {
        for needle in words {
            assert_eq!(contains(hay, needle), hay.contains(needle), "{:?} in {:?}", needle, hay);
        }
    }
}

#[test]
fn lowercase_folds_every_script() {
    assert_eq!(stored_trigger("GM Everyone"), "gm everyone");
    assert_eq!(
        stored_trigger("\u{41f}\u{420}\u{418}\u{412}\u{415}\u{422}"),
        "\u{43f}\u{440}\u{438}\u{432}\u{435}\u{442}"
    );
    assert_eq!(stored_trigger("\u{49a}\u{410}\u{417}"), "\u{49b}\u{430}\u{437}");
    assert_eq!(stored_trigger("123 !?"), "123 !?");
}

#[test]
fn numbers_are_read_like_the_standard_library_reads_them() {
    let texts = [
        "", "+", "-", "0", "+0", "-0", "00", "007", "1", "+1", "++1", "1+", " 1", "1 ", "12a",
        "a12", "255", "256", "+255", "0255", "4294967295", "4294967296", "04294967295",
        "99999999999999999999999999", "18446744073709551615", "18446744073709551616", "1_000",
        "\u{661}\u{662}", "1.0", "0x10",
    ];
    for s in texts {
        assert_eq!(parse_u32(s), s.parse::<u32>().ok(), "{:?}", s);
        assert_eq!(parse_u8(s), s.parse::<u8>().ok(), "{:?}", s);
        assert_eq!(parse_decimal(s, u64::MAX), s.parse::<u64>().ok(), "{:?}", s);
    }
    assert_eq!(parse_decimal("10", 9), None);
    assert_eq!(parse_decimal("9", 9), Some(9));
    assert_eq!(parse_decimal("0", 0), Some(0));
    assert_eq!(parse_decimal("1", 0), None);
}
