//! Texts and paths, held against the standard library.

use jump::paths::{extension, file_name, is_absolute, join_path, parent};
use jump::text::{
    comes_before, contains, decimal, drop_suffix, has_char, is_space, join, join_strings, lines, parse_usize,
    same_text, skip_prefix, starts_with, strip_end, strip_prefix, take_after, take_before, trim, words,
};
use std::path::Path;

const TEXTS: [&str; 16] = [
    "",
    " ",
    "\n",
    "a",
    " a b ",
    "a\nb",
    "a\r\nb\r\n",
    "\r\n\r\n",
    "a\n\nb\n",
    "\u{85}x\u{a0}\u{2003}y\u{3000}",
    "tab\tand\u{b}more\u{c}",
    "ends in return\r",
    "\r",
    "line\u{2028}separator",
    "ümläut → ☃ 𝄞",
    "a::b<c>(d)",
];

const PATHS: [&str; 30] = [
    "", "/", "//", ".", "..", "./", "../", "/.", "/..", "a", "a/", "a//", "a/b", "a/b/", "/a",
    "/a/b.rs", "a/.", "a/..", "a/./b", "/./a", "./a", "../a", "a.b.c", ".hidden", ".hidden.txt",
    "dir.d/file", "a.", "..a", "/a/./", "x/./.",
];

#[test]
fn texts_are_trimmed_and_split_as_in_the_standard_library() {
    for s in TEXTS {
        assert_eq!(trim(s), s.trim());
        assert_eq!(lines(s), s.lines().collect::<Vec<_>>());
        assert_eq!(words(s), s.split_whitespace().collect::<Vec<_>>());
    }
}

#[test]
fn texts_are_searched_as_in_the_standard_library() {
    for s in TEXTS {
        for pattern in ["", "a", "a ", "::", "\n", "☃", "nvim"] {
            assert_eq!(contains(s, pattern), s.contains(pattern));
            assert_eq!(starts_with(s, pattern), s.starts_with(pattern));
            assert_eq!(strip_prefix(s, pattern), s.strip_prefix(pattern));
            assert_eq!(
                skip_prefix(s, pattern),
                s.strip_prefix(pattern).unwrap_or(s)
            );
            assert_eq!(
                drop_suffix(s, pattern),
                s.strip_suffix(pattern).unwrap_or(s)
            );
            assert_eq!(same_text(s, pattern), s == pattern);
            assert_eq!(comes_before(s, pattern), s < pattern);
        }
        for c in ['a', ':', '<', '☃', ' '] {
            assert_eq!(has_char(s, c), s.contains(c));
            assert_eq!(take_before(s, c), s.split(c).next().unwrap());
            assert_eq!(take_after(s, c), s.split_once(c).map(|p| p.1));
        }
        assert_eq!(
            strip_end(s, &['\n', ')', 'a', ' ']),
            s.trim_end_matches(['\n', ')', 'a', ' '])
        );
    }
}

#[test]
fn parts_are_joined() {
    let parts = vec!["a", "", "b"];
    assert_eq!(join(&parts, ", "), "a, , b");
    assert_eq!(join(&Vec::new(), ", "), "");
    assert_eq!(join_strings(&vec!["x".to_string()], "-"), "x");
}

#[test]
fn lines_are_read_back_when_joined() {
    let parts = vec!["fn a()", "b::c", "x \r y"];
    let text = join(&parts, "\n");
    assert_eq!(lines(&text), parts);
}

#[test]
fn numerals_are_written_and_read() {
    for n in [0u64, 7, 10, 99, 100, 65535, u64::MAX] {
        assert_eq!(decimal(n), n.to_string());
    }
    for s in [
        "", "0", "+5", "-5", "007", "12a", " 1", "18446744073709551615", "18446744073709551616",
        "+", "٣",
    ] {
        assert_eq!(parse_usize(s), s.parse::<usize>().ok());
    }
}

#[test]
fn paths_are_read_as_in_the_standard_library() {
    for p in PATHS {
        let path = Path::new(p);
        assert_eq!(file_name(p), path.file_name().map(|n| n.to_str().unwrap()));
        assert_eq!(extension(p), path.extension().map(|e| e.to_str().unwrap()));
        assert_eq!(is_absolute(p), path.is_absolute());
        assert_eq!(
            parent(p),
            path.parent().map(|q| q.to_str().unwrap().to_string()),
            "the parent of {:?}",
            p
        );
    }
}

#[test]
fn paths_are_joined_as_in_the_standard_library() {
    for base in PATHS {
        for p in PATHS {
            assert_eq!(
                join_path(base, p),
                Path::new(base).join(p).to_str().unwrap()
            );
        }
    }
}

#[test]
fn names_do_not_depend_on_the_directory() {
    for base in PATHS {
        for p in PATHS {
            if let Some(name) = file_name(p) {
                let joined = join_path(base, p);
                assert_eq!(file_name(&joined), Some(name));
                assert_eq!(extension(&joined), extension(p));
            }
        }
    }
}

#[test]
fn white_space_is_that_of_the_standard_library() {
    for c in '\0'..=char::MAX {
        assert_eq!(is_space(c), c.is_whitespace());
    }
}
