use ryu_drafts::number::{parse_unsigned, write_decimal, write_scaled};
use ryu_drafts::text::{blank, join, same, space, split_all, split_first, split_last, trim};

#[test]
fn white_space_is_what_unicode_says() {
    for n in 0..=0x10ffffu32 {
        if let Some(c) = char::from_u32(n) {
            assert_eq!(space(c), c.is_whitespace(), "{n:x}");
        }
    }
}

#[test]
fn trimming_takes_white_space_at_both_ends() {
    for s in ["", " ", "a", " a ", "\t a b \n", "\u{2028}x\u{205f}", "  é  "] {
        assert_eq!(trim(s), s.trim());
        assert_eq!(blank(s), s.trim().is_empty());
    }
}

#[test]
fn splitting_goes_as_written() {
    for s in ["", "a", "a=b", "a=b=c", "=", "==", "k=", "=v", "é=ü"] {
        assert_eq!(
            split_first(s, '='),
            s.split_once('=').map(|(a, b)| (a.to_owned(), b.to_owned()))
        );
        assert_eq!(
            split_last(s, '='),
            s.rsplit_once('=').map(|(a, b)| (a.to_owned(), b.to_owned()))
        );
        assert_eq!(split_all(s, '='), s.split('=').map(str::to_owned).collect::<Vec<_>>());
    }
}

#[test]
fn texts_are_the_same_where_their_characters_are() {
    assert!(same("", ""));
    assert!(same("é", "é"));
    assert!(!same("a", "b"));
    assert!(!same("a", "ab"));
    assert_eq!(join("a", "b", "c"), "abc");
}

#[test]
fn numbers_are_read_as_written() {
    for s in [
        "", "0", "7", "+7", "007", "-1", "-0", "+", "++1", " 1", "1 ", "4294967295", "4294967296",
        "99999999999999999999", "1e3", "0x10", "１", "1_000",
    ] {
        assert_eq!(parse_unsigned(s, u32::MAX), s.parse::<u32>().ok(), "{s}");
        assert_eq!(parse_unsigned(s, 65535), s.parse::<u16>().ok().map(u32::from), "{s}");
    }
}

#[test]
fn numbers_are_written_in_decimal() {
    for n in [0, 1, 9, 10, 99, 100, 12345, u64::MAX] {
        assert_eq!(write_decimal(n), format!("{n}"));
    }
    assert_eq!(write_scaled(3, 70), format!("{}", 3u128 << 70));
    assert_eq!(write_scaled(0, 5), "0");
}
