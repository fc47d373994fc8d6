use codex_channels::numerals::{decimal_text, hex_text, parse_unsigned};
use codex_channels::text::{
    byte_len, file_name, join, same_text, split_first_word, split_words, starts_with, to_lower, trim,
    PathStyle,
};

#[test]
fn trimming_takes_unicode_white_space_from_both_ends() {
    assert_eq!(trim(" \u{3000}a b\u{a0}\n"), "a b");
    assert_eq!(trim(" \t"), "");
    assert_eq!(trim(trim("  x ")), "x");
    for text in ["", "é x ", "\u{2028}mid\u{85}"] {
        assert_eq!(trim(text), text.trim());
    }
}

#[test]
fn words_are_split_and_joined() {
    let words = split_words("  fix\tthe \u{2003} bug ");
    assert_eq!(words, vec!["fix".to_string(), "the".to_string(), "bug".to_string()]);
    assert_eq!(join(&words, ", "), "fix, the, bug");
    assert!(split_words(" \n").is_empty());
    assert_eq!(join(&Vec::new(), ", "), "");
    assert_eq!(split_first_word("10  go on"), ("10", "  go on"));
    assert_eq!(split_first_word(" go"), ("", " go"));
}

#[test]
fn texts_are_compared_and_measured() {
    assert!(same_text("é", "é"));
    assert!(!same_text("e", "é"));
    assert_eq!(byte_len("é😀"), 6);
    assert!(starts_with("image/png", "image/"));
    assert!(!starts_with("img", "image/"));
    assert_eq!(to_lower("ONCE É"), "once É");
}

#[test]
fn file_names_are_the_last_component_of_a_path() {
    for path in ["/tmp/photo.jpg", "/tmp/dir/", "a/b/.", "..", "/", "", "a/..", "x"] {
        let expected = std::path::Path::new(path).file_name().and_then(|name| name.to_str());
        assert_eq!(file_name(path, PathStyle::Unix), expected, "{path}");
    }
}

#[test]
fn windows_paths_have_drives_and_two_separators() {
    let name = |path| file_name(path, PathStyle::Windows);
    assert_eq!(name("C:\\tmp\\a.txt"), Some("a.txt"));
    assert_eq!(name("C:/tmp/a.txt\\"), Some("a.txt"));
    assert_eq!(name("C:a.txt"), Some("a.txt"));
    assert_eq!(name("C:\\"), None);
    assert_eq!(name("c:"), None);
    assert_eq!(name("tmp\\.."), None);
    assert_eq!(file_name("C:", PathStyle::Unix), Some("C:"));
    assert_eq!(name(r"\\server\share"), None);
    assert_eq!(name("//server/share/"), None);
    assert_eq!(name(r"\\server\share\a.txt"), Some("a.txt"));
    assert_eq!(name(r"\\server\\share"), Some("share"));
    assert_eq!(name(r"\\server"), Some("server"));
    assert_eq!(name(r"\\.\COM42"), None);
    assert_eq!(name(r"\\.\pipe\a"), Some("a"));
    assert_eq!(name(r"\\?\C:\dir\a.txt"), Some("a.txt"));
    assert_eq!(name(r"\\?\C:\"), None);
    assert_eq!(name(r"\\?\UNC\server\share"), None);
    assert_eq!(name(r"\\?\UNC\server\share\a.txt"), Some("a.txt"));
    assert_eq!(name(r"\\?\pictures\a/b"), Some("a/b"));
    assert_eq!(name(r"\\?\pictures\."), None);
    assert_eq!(name(r"\dir\a.txt\."), Some("a.txt"));
}

#[test]
fn numbers_are_written_and_read() {
    assert_eq!(decimal_text(0), "0");
    assert_eq!(decimal_text(u64::MAX), "18446744073709551615");
    assert_eq!(hex_text(0xabc), "0000000000000abc");
    assert_eq!(parse_unsigned("+0042", u64::MAX), Some(42));
    assert_eq!(parse_unsigned("18446744073709551615", u64::MAX), Some(u64::MAX));
    assert_eq!(parse_unsigned("18446744073709551616", u64::MAX), None);
    assert_eq!(parse_unsigned("256", 255), None);
    for text in ["", "+", "-1", "1 ", "x", "++1"] {
        assert_eq!(parse_unsigned(text, u64::MAX), None);
    }
}
