//! Paths and texts.

use hbwatch::mover::{candidate, error_note_path, temp_path};
use hbwatch::path::FilePath;
use hbwatch::text::{
    contains_text, is_blank, push_decimal, push_decimal_padded, push_padded, push_signed_decimal,
    same_text, strip_prefix, trim_end_slashes,
};

fn path(text: &str) -> FilePath {
    FilePath::from_text(text)
}

fn text(bytes: Option<Vec<u8>>) -> Option<String> {
    bytes.map(|b| String::from_utf8(b).unwrap())
}

#[test]
fn paths_are_the_same_by_components() {
    assert_eq!(path("/a/b"), path("/a//b/"));
    assert_eq!(path("/a/./b"), path("/a/b"));
    assert_eq!(path("a/b/."), path("a/b"));
    assert_ne!(path("/a/b"), path("a/b"));
    assert_ne!(path("./a"), path("a"));
    assert_ne!(path("/a/../b"), path("/b"));
    assert!(!path("/a/b").same_path(&path("/a/B")));
}

#[test]
fn starts_with_goes_by_whole_components() {
    assert!(path("/data/inbox/out").starts_with(&path("/data/inbox")));
    assert!(path("/data/inbox").starts_with(&path("/data/inbox/")));
    assert!(!path("/data/inbox2").starts_with(&path("/data/inbox")));
    assert!(path("/data").starts_with(&path("/")));
    assert!(!path("data").starts_with(&path("/")));
    assert!(path("data").starts_with(&path("")));
}

#[test]
fn names_stems_and_extensions() {
    let film = path("/x/my.film.mkv");
    assert_eq!(text(film.file_name()).as_deref(), Some("my.film.mkv"));
    assert_eq!(text(film.file_stem()).as_deref(), Some("my.film"));
    assert_eq!(text(film.extension()).as_deref(), Some("mkv"));
    let hidden = path("/x/.profile");
    assert_eq!(text(hidden.file_stem()).as_deref(), Some(".profile"));
    assert_eq!(text(hidden.extension()), None);
    let ended = path("clip.");
    assert_eq!(text(ended.file_stem()).as_deref(), Some("clip"));
    assert_eq!(text(ended.extension()).as_deref(), Some(""));
    assert_eq!(text(path("/x/film/").file_name()).as_deref(), Some("film"));
    assert_eq!(text(path("/").file_name()), None);
    assert_eq!(text(path("/x/..").file_name()), None);
    assert_eq!(text(path("..").file_stem()), None);
}

#[test]
fn parents() {
    assert_eq!(path("/a/b").parent(), Some(path("/a")));
    assert_eq!(path("/a").parent(), Some(path("/")));
    assert_eq!(path("a").parent(), Some(path("")));
    assert_eq!(path("/").parent(), None);
    assert_eq!(path("").parent(), None);
}

#[test]
fn joining() {
    assert_eq!(path("/a").join_text("b").as_bytes(), b"/a/b");
    assert_eq!(path("/a/").join_text("b").as_bytes(), b"/a/b");
    assert_eq!(path("").join_text("b").as_bytes(), b"b");
    assert_eq!(path("/a").join_text("/b").as_bytes(), b"/b");
    assert_eq!(path("/a").join(b"c d").as_bytes(), b"/a/c d");
}

#[test]
fn a_plain_name_is_added_as_one_component() {
    let base = path("/data/out");
    let joined = base.join_text("film.mp4");
    assert!(joined.starts_with(&base));
    assert_eq!(text(joined.file_name()).as_deref(), Some("film.mp4"));
    assert_eq!(joined.parent(), Some(base));
}

#[test]
fn bytes_that_are_not_text_are_shown_with_replacements() {
    let odd = FilePath::from_bytes(b"/x/a\xffb.mkv".to_vec());
    assert_eq!(odd.display(), "/x/a\u{fffd}b.mkv");
    assert_eq!(odd.display_name(), "a\u{fffd}b.mkv");
    assert_eq!(path("/x/é.mkv").display_name(), "é.mkv");
    assert_eq!(path("/").display_name(), "");
}

#[test]
fn copies_of_a_path_hold_the_same_bytes() {
    let one = path("/a//b/");
    let other = one.clone();
    assert_eq!(one.as_bytes(), other.as_bytes());
}

#[test]
fn suffixes_stand_behind_the_last_byte() {
    assert_eq!(temp_path(&path("/o/f.mp4")).as_bytes(), b"/o/f.mp4.hbtmp");
    assert_eq!(
        error_note_path(&path("/o/f.mkv")).as_bytes(),
        b"/o/f.mkv.error.txt"
    );
}

#[test]
fn candidates_are_numbered_behind_the_stem() {
    let dir = path("/orig");
    let film = path("/in/film.mkv");
    assert_eq!(candidate(&dir, &film, 0).as_bytes(), b"/orig/film.mkv");
    assert_eq!(candidate(&dir, &film, 1).as_bytes(), b"/orig/film (1).mkv");
    assert_eq!(candidate(&dir, &film, 12).as_bytes(), b"/orig/film (12).mkv");
    let bare = path("/in/film");
    assert_eq!(candidate(&dir, &bare, 2).as_bytes(), b"/orig/film (2)");
}

#[test]
fn a_name_that_is_not_text_keeps_its_bytes_until_it_is_numbered() {
    let dir = path("/orig");
    let odd = FilePath::from_bytes(b"/in/a\xff.mkv".to_vec());
    assert_eq!(candidate(&dir, &odd, 0).as_bytes(), b"/orig/a\xff.mkv");
    assert_eq!(
        candidate(&dir, &odd, 1).as_bytes(),
        "/orig/a\u{fffd} (1).mkv".as_bytes()
    );
}

#[test]
fn candidates_differ_from_one_another() {
    let dir = path("/orig");
    let film = path("/in/film (1).mkv");
    let names: Vec<FilePath> = (0..25).map(|n| candidate(&dir, &film, n)).collect();
    for a in 0..names.len() {
        for b in 0..a {
            assert_ne!(names[a], names[b]);
        }
    }
}

#[test]
fn decimals() {
    let mut out = String::new();
    push_decimal(&mut out, 0);
    push_decimal(&mut out, u64::MAX);
    assert_eq!(out, "018446744073709551615");
    let mut out = String::new();
    push_decimal_padded(&mut out, 7);
    push_decimal_padded(&mut out, 59);
    assert_eq!(out, "0759");
    let mut out = String::new();
    push_signed_decimal(&mut out, -12);
    push_signed_decimal(&mut out, i64::MIN);
    assert_eq!(out, "-12-9223372036854775808");
}

#[test]
fn texts() {
    assert!(contains_text("abcabd", "abd"));
    assert!(contains_text("abc", ""));
    assert!(!contains_text("ab", "abc"));
    assert!(same_text("é", "é"));
    assert!(!same_text("a", "A"));
    assert_eq!(strip_prefix("Bearer x", "Bearer "), Some("x"));
    assert_eq!(strip_prefix("bearer x", "Bearer "), None);
    assert!(is_blank(""));
    assert!(is_blank(" \t\n\u{3000}"));
    assert!(!is_blank(" x "));
    assert_eq!(trim_end_slashes("https://ntfy.sh//"), "https://ntfy.sh");
    assert_eq!(trim_end_slashes("//"), "");
    let mut out = String::new();
    push_padded(&mut out, "ab", 4);
    push_padded(&mut out, "abcde", 4);
    assert_eq!(out, "ab  abcde");
}
