use resources::text::{
    chars_of, parse_u32, parse_usize, split_at_char, split_blank_lines, str_ends_with, str_equal,
    str_starts_with, string_of,
};

#[test]
fn parse_reads_unsigned_decimals() {
    assert_eq!(parse_u32("0"), Some(0));
    assert_eq!(parse_u32("4294967295"), Some(4_294_967_295));
    assert_eq!(parse_u32("4294967296"), None);
    assert_eq!(parse_u32("+12"), Some(12));
    assert_eq!(parse_u32("+"), None);
    assert_eq!(parse_u32(""), None);
    assert_eq!(parse_u32("-3"), None);
    assert_eq!(parse_u32("12a"), None);
    assert_eq!(parse_u32("1 2"), None);
    assert_eq!(parse_u32("٣"), None);
    assert_eq!(parse_usize("18446744073709551615"), Some(usize::MAX));
    assert_eq!(parse_usize("18446744073709551616"), None);
    assert_eq!(parse_usize("000"), Some(0));
}

#[test]
fn parse_agrees_with_std() {
    for text in ["7", "+7", "++7", "", "+", "007", "4294967295", "4294967296", "9x", " 9"] {
        assert_eq!(parse_u32(text), text.parse::<u32>().ok());
    }
}

#[test]
fn split_at_blank_lines_agrees_with_std() {
    for text in ["", "a", "a\n\nb", "a\n\n", "\n\na", "a\n\n\nb", "a\n\n\n\nb", "\n", "\n\n\n"] {
        let expected: Vec<String> = text.split("\n\n").map(|s| s.to_string()).collect();
        assert_eq!(split_blank_lines(text), expected);
    }
}

#[test]
fn split_at_a_character_agrees_with_std() {
    for text in ["", ":", "a:b", "a::b", ":a:", "/usr/share:/home/me/.local/share", "é:ü"] {
        let expected: Vec<String> = text.split(':').map(|s| s.to_string()).collect();
        assert_eq!(split_at_char(text, ':'), expected);
    }
}

#[test]
fn prefixes_and_suffixes() {
    assert!(str_starts_with("bwrap --args", "bwrap"));
    assert!(!str_starts_with("bwra", "bwrap"));
    assert!(str_starts_with("anything", ""));
    assert!(str_ends_with("org.gnome.Editor.desktop", ".desktop"));
    assert!(!str_ends_with("desktop", ".desktop"));
    assert!(str_equal("héllo", "héllo"));
    assert!(!str_equal("hello", "hellp"));
    assert!(!str_equal("hello", "hell"));
}

#[test]
fn characters_and_back() {
    let chars = chars_of("häns");
    assert_eq!(chars, vec!['h', 'ä', 'n', 's']);
    assert_eq!(string_of(&chars, 1, 3), "än");
    assert_eq!(string_of(&chars, 2, 2), "");
}
