use aborganizer::ordering::{key_less, sorted_positions, text_less, SortKey};
use aborganizer::paths::{extension, file_name, is_under, path_parts, stem, write_path};
use aborganizer::text::{
    contains_text, fill_left, fill_right, i64_text, is_white, join, same_ignoring_case,
    strip_prefix, to_ascii_lower, to_ascii_upper, trim, zero_pad,
};

#[test]
fn white_space_is_that_of_characters() {
    for n in 0..=0x10_FFFF_u32 {
        if let Some(c) = char::from_u32(n) {
            assert_eq!(is_white(c), c.is_whitespace(), "{n:x}");
        }
    }
}

#[test]
fn trimming_and_case() {
    for s in ["", " ", "\u{2003}a b\t", "x", "\u{feff}x"] {
        assert_eq!(trim(s), s.trim());
        assert_eq!(trim(&trim(s)), trim(s));
    }
    for s in ["aZ09äÖ", "", "[`{@"] {
        assert_eq!(to_ascii_upper(s), s.to_ascii_uppercase());
        assert_eq!(to_ascii_lower(s), s.to_ascii_lowercase());
    }
    assert!(same_ignoring_case("ABC", "abc"));
    assert!(!same_ignoring_case("Ä", "ä"));
}

#[test]
fn searching() {
    assert!(contains_text("hello", "ell"));
    assert!(contains_text("hello", ""));
    assert!(!contains_text("hell", "hello"));
    assert_eq!(strip_prefix("Bearer x", "Bearer ").as_deref(), Some("x"));
    assert_eq!(strip_prefix("Bear", "Bearer "), None);
}

#[test]
fn numbers_and_padding() {
    for n in [0_i64, 1, -1, 10, 999, i64::MAX, i64::MIN] {
        assert_eq!(i64_text(n), n.to_string());
    }
    assert_eq!(zero_pad(7, 3), "007");
    assert_eq!(zero_pad(1234, 3), "1234");
    assert_eq!(fill_left("ab", 4, ' '), format!("{:>4}", "ab"));
    assert_eq!(fill_right("äb", 4), format!("{:<4}", "äb"));
    assert_eq!(fill_right("abcdef", 4), format!("{:<4}", "abcdef"));
    assert_eq!(join(&vec!["a".to_owned(), "b".to_owned()], ", "), "a, b");
    assert_eq!(join(&vec![], ", "), "");
}

#[test]
fn paths_agree_with_the_standard_library() {
    for p in [
        "/a/b.m4b", "/a/b/", "b.tar.gz", ".hidden", "/", "", "a/..", "a//b/./c.x", "x.", "/.x.y",
    ] {
        let q = std::path::Path::new(p);
        assert_eq!(file_name(p).as_deref(), q.file_name().and_then(|s| s.to_str()), "{p}");
        assert_eq!(extension(p).as_deref(), q.extension().and_then(|s| s.to_str()), "{p}");
        assert_eq!(stem(p).as_deref(), q.file_stem().and_then(|s| s.to_str()), "{p}");
    }
    for p in ["/a", "/a/b", "/ab", "/", "/a/b/c"] {
        for r in ["/a", "/a/b", "/", "/b"] {
            let expected = std::path::Path::new(p).starts_with(std::path::Path::new(r));
            assert_eq!(is_under(p, r), expected, "{p} under {r}");
        }
    }
    assert_eq!(write_path(&path_parts("/a//b/./c")), "/a/b/c");
}

#[test]
fn texts_are_ordered_like_strings() {
    let words = ["", "a", "A", "ab", "b", "ä", "z", "\u{10ffff}", "\u{e000}"];
    for a in words {
        for b in words {
            assert_eq!(text_less(a, b), a < b, "{a} < {b}");
        }
    }
}

#[test]
fn sorting_is_stable() {
    let key = |rank: u64, s: &str| SortKey { rank, parts: vec![s.to_owned()] };
    let keys = vec![key(1, "b"), key(0, "z"), key(1, "a"), key(1, "b"), key(0, "a")];
    assert_eq!(sorted_positions(&keys), vec![4, 1, 2, 0, 3]);
    assert!(key_less(&keys[2], &keys[0]));
    assert!(!key_less(&keys[0], &keys[3]));
}
