use std::path::Path;

use gitopiary::edit::{accepts, edit, EditKey};
use gitopiary::bytes::{bytes_eq, split_bytes};
use gitopiary::paths::{file_name, join, join_text, parent, paths_equal, FilePath};
use gitopiary::text::{is_space, join_strings, push_decimal, str_le, trim_str};

const PATHS: [&str; 24] = [
    "", "/", "//", "a", "a/", "a//", "/a", "/a/", "a/b", "a//b", "/a/b", "/a/b/", "/a/./b", "./a",
    ".", "..", "a/..", "a/.", "/.", "/..", "./", "a/./", "/a/b/c", "a b/c",
];

fn at(path: &str) -> FilePath {
    FilePath::from_text(path)
}

#[test]
fn paths_agree_with_std() {
    for p in PATHS {
        let std_parent = Path::new(p).parent().map(|q| q.to_string_lossy().to_string());
        let own_parent = parent(&at(p));
        assert_eq!(own_parent.is_some(), std_parent.is_some(), "parent of {:?}", p);
        if let (Some(a), Some(b)) = (own_parent, std_parent) {
            assert_eq!(Path::new(&a.to_text()), Path::new(&b), "parent of {:?}", p);
        }
        assert_eq!(
            file_name(&at(p)).map(|n| n.to_text()),
            Path::new(p).file_name().map(|n| n.to_string_lossy().to_string()),
            "file name of {:?}",
            p
        );
        for q in PATHS {
            assert_eq!(
                join(&at(p), &at(q)).to_text(),
                Path::new(p).join(q).to_string_lossy(),
                "{:?} joined with {:?}",
                p,
                q
            );
            assert_eq!(
                paths_equal(&at(p), &at(q)),
                Path::new(p) == Path::new(q),
                "{:?} equal to {:?}",
                p,
                q
            );
        }
    }
}

#[test]
fn paths_need_not_be_text() {
    let odd = FilePath { bytes: b"/a\xff//b\xfe/.".to_vec() };
    assert_eq!(parent(&odd).unwrap().bytes, b"/a\xff");
    assert_eq!(file_name(&odd).unwrap().bytes, b"b\xfe");
    assert_eq!(join_text(&odd, "\u{e9}").bytes, b"/a\xff//b\xfe/./\xc3\xa9");
    assert!(paths_equal(&odd, &FilePath { bytes: b"/a\xff/b\xfe".to_vec() }));
    assert!(!paths_equal(&odd, &FilePath { bytes: b"/a\xff/b\xff".to_vec() }));
    assert_eq!(odd.to_text(), "/a\u{fffd}//b\u{fffd}/.");
    assert_eq!(at("/caf\u{e9}").to_text(), "/caf\u{e9}");
    assert_eq!(odd.clone().bytes, odd.bytes);
}

#[test]
fn bytes_are_split_and_compared() {
    let fields = split_bytes(&b"/a//".to_vec(), b'/');
    assert_eq!(fields, vec![vec![], b"a".to_vec(), vec![], vec![]]);
    assert!(bytes_eq(&vec![1, 2], &vec![1, 2]));
    assert!(!bytes_eq(&vec![1, 2], &vec![1, 3]));
    assert!(!bytes_eq(&vec![1, 2], &vec![1]));
}

#[test]
fn white_space_agrees_with_std() {
    for n in 0..0x11_0000u32 {
        if let Some(c) = char::from_u32(n) {
            assert_eq!(is_space(c), c.is_whitespace(), "{:?}", c);
        }
    }
    assert_eq!(trim_str(" \t a b\u{3000}\n"), "a b");
}

#[test]
fn text_is_ordered_as_in_std() {
    let words = ["", "a", "ab", "b", "B", "\u{e9}", "\u{ffff}", "\u{10000}"];
    for a in words {
        for b in words {
            assert_eq!(str_le(a, b), a <= b, "{:?} {:?}", a, b);
        }
    }
}

#[test]
fn numbers_and_lists_are_written() {
    let mut s = String::new();
    push_decimal(&mut s, 0);
    push_decimal(&mut s, 1907);
    push_decimal(&mut s, u64::MAX);
    assert_eq!(s, format!("01907{}", u64::MAX));
    let words = vec!["a".to_string(), "b".to_string()];
    assert_eq!(join_strings(&words, ", "), "a, b");
    assert_eq!(join_strings(&vec![], ", "), "");
}

fn typed(start: &str, at: usize, keys: &[EditKey]) -> (String, usize) {
    let mut content = start.to_string();
    let mut cursor = at;
    for key in keys {
        assert!(accepts(&content, cursor, *key));
        edit(&mut content, &mut cursor, *key);
    }
    (content, cursor)
}

#[test]
fn a_field_is_edited() {
    assert_eq!(
        typed("", 0, &[EditKey::Char('a'), EditKey::Char('c'), EditKey::Left, EditKey::Char('b')]),
        ("abc".to_string(), 2)
    );
    assert_eq!(typed("abc", 2, &[EditKey::Backspace]), ("ac".to_string(), 1));
    assert_eq!(typed("abc", 0, &[EditKey::Backspace]), ("abc".to_string(), 0));
    assert_eq!(typed("abc", 1, &[EditKey::Delete]), ("ac".to_string(), 1));
    assert_eq!(typed("abc", 3, &[EditKey::Delete, EditKey::Right]), ("abc".to_string(), 3));
    assert_eq!(typed("abc", 1, &[EditKey::End]), ("abc".to_string(), 3));
    assert_eq!(typed("abc", 2, &[EditKey::Home, EditKey::Left]), ("abc".to_string(), 0));
    assert_eq!(
        typed("abc", 1, &[EditKey::Char('x'), EditKey::Backspace]),
        ("abc".to_string(), 1)
    );
}

#[test]
fn a_cursor_inside_a_character_is_refused() {
    let (content, cursor) = typed("", 0, &[EditKey::Char('\u{e9}')]);
    assert_eq!((content.as_str(), cursor), ("\u{e9}", 1));
    assert!(!accepts(&content, cursor, EditKey::Char('x')));
    assert!(!accepts(&content, cursor, EditKey::Delete));
    assert!(accepts(&content, cursor, EditKey::Backspace));
    assert!(accepts(&content, cursor, EditKey::Left));
    assert!(!accepts(&content, 2, EditKey::Backspace));
    assert!(accepts(&content, 2, EditKey::Char('x')));
    assert!(!accepts(&content, 9, EditKey::Char('x')));
}
