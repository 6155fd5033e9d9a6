use rustchan::digest::sha256_text;
use rustchan::launch::{needs_terminal, terminal_after};
use rustchan::numbers::{decimal_i64, decimal_u128, decimal_u64, parse_i64};
use rustchan::paths::{
    join_path, path_extension, path_file_name, path_file_stem, path_names, path_parent,
    path_with_extension,
};
use rustchan::text::{
    comes_before, contains_str, ends_with, eq_ignore_ascii_case, join, split_at_char, starts_with,
    take_bytes, to_ascii_lowercase, trim,
};

#[test]
fn numbers_survive_their_decimal_form() {
    for n in [0, 7, -1, 10, i64::MAX, i64::MIN] {
        assert_eq!(decimal_i64(n), n.to_string());
        assert_eq!(parse_i64(&decimal_i64(n)), Some(n));
    }
    assert_eq!(decimal_u64(u64::MAX), u64::MAX.to_string());
    assert_eq!(decimal_u128(u128::MAX), u128::MAX.to_string());
    for text in ["", "-", "+", "1x", " 1", "9223372036854775808", "1_000"] {
        assert_eq!(parse_i64(text), text.parse::<i64>().ok(), "{text:?}");
    }
    assert_eq!(parse_i64("+5"), Some(5));
    assert_eq!(parse_i64("007"), Some(7));
}

#[test]
fn texts_agree_with_the_standard_library() {
    for s in ["", "abc", " a b ", "\u{3000}x\t\n", "ÄÖ", "a,b,,c"] {
        assert_eq!(trim(s), s.trim());
        assert_eq!(to_ascii_lowercase(s), s.to_ascii_lowercase());
        assert_eq!(split_at_char(s, ','), s.split(',').collect::<Vec<_>>());
        for p in ["", "a", "b ", ",,"] {
            assert_eq!(contains_str(s, p), s.contains(p));
            assert_eq!(starts_with(s, p), s.starts_with(p));
            assert_eq!(ends_with(s, p), s.ends_with(p));
            assert_eq!(comes_before(s, p), s < p);
        }
    }
    assert!(eq_ignore_ascii_case("HTTPS", "https"));
    assert!(!eq_ignore_ascii_case("Ä", "ä"));
    assert_eq!(join(&vec!["a".to_owned(), "b".to_owned()], "|"), "a|b");
    assert_eq!(take_bytes("abc", 2), "ab");
}

#[test]
fn paths_agree_with_the_standard_library() {
    for p in ["", "/", "a", "a/b.webp", "/a/b.tar.gz", "a/.hidden", "a/b/", "a//b", "./a", "a/..", "a/."] {
        let path = std::path::Path::new(p);
        assert_eq!(
            path_file_name(p).as_deref(),
            path.file_name().and_then(|s| s.to_str()),
            "file name of {p:?}"
        );
        assert_eq!(
            path_file_stem(p).as_deref(),
            path.file_stem().and_then(|s| s.to_str()),
            "file stem of {p:?}"
        );
        assert_eq!(
            path_extension(p).as_deref(),
            path.extension().and_then(|s| s.to_str()),
            "extension of {p:?}"
        );
    }
    assert_eq!(path_with_extension("/t/a.webp", "svg"), "/t/a.svg");
    assert_eq!(path_with_extension("/t/a", "svg"), "/t/a.svg");
    assert_eq!(path_with_extension("/t/a.webp", ""), "/t/a");
    assert_eq!(join_path("/t", "a.webp"), "/t/a.webp");
    assert_eq!(join_path("/t/", "a.webp"), "/t/a.webp");
    assert_eq!(path_parent("/t/a.webp").as_deref(), Some("/t"));
    assert_eq!(path_names("b/a.webp"), Some(vec!["b".to_owned(), "a.webp".to_owned()]));
    assert_eq!(path_names("../a.webp"), None);
    assert_eq!(path_names("/b/a.webp"), None);
}

#[test]
fn digests_are_those_of_sha256() {
    assert_eq!(
        sha256_text(b""),
        "e3b0c44298fc1c149afbf4c8996fb92427ae41e4649b934ca495991b7852b855"
    );
    assert_eq!(
        sha256_text(b"abc"),
        "ba7816bf8f01cfea414140de5dae2223b00361a396177a9cb410ff61f20015ad"
    );
}

#[test]
fn a_terminal_is_opened_once() {
    assert!(needs_terminal(false, false, false));
    assert!(!needs_terminal(true, false, false));
    assert!(!needs_terminal(false, true, false));
    assert!(!needs_terminal(false, false, true));
    assert_eq!(terminal_after(0), Some("xterm"));
    assert_eq!(terminal_after(4), Some("x-terminal-emulator"));
    assert_eq!(terminal_after(5), None);
}
