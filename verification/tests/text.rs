use batch_transfer::text::{
    chars_of, contains, is_space, occurs_at, position, same, slice, starts_with, stripped,
    CharClass,
};

fn text(s: &str) -> Vec<char> {
    s.chars().collect()
}

#[test]
fn white_space_is_what_the_standard_library_calls_white_space() {
    let mut c: u32 = 0;
    while c <= 0x10FFFF {
        if let Some(ch) = char::from_u32(c) {
            assert_eq!(is_space(ch), ch.is_whitespace(), "code point {:#x}", c);
        }
        c += 1;
    }
}

#[test]
fn chars_of_gives_every_character() {
    assert_eq!(chars_of(""), Vec::<char>::new());
    assert_eq!(chars_of("a/b"), vec!['a', '/', 'b']);
    assert_eq!(chars_of("é☃x"), vec!['é', '☃', 'x']);
}

#[test]
fn slice_copies_a_range() {
    let v = text("hello");
    assert_eq!(slice(&v, 1, 3), text("el"));
    assert_eq!(slice(&v, 0, 5), text("hello"));
    assert_eq!(slice(&v, 2, 2), text(""));
}

#[test]
fn same_compares_texts() {
    assert!(same(&text("ID"), &text("ID")));
    assert!(!same(&text("ID"), &text("Id")));
    assert!(!same(&text("ID"), &text("ID_LIKE")));
    assert!(same(&text(""), &text("")));
}

#[test]
fn position_finds_the_first_occurrence() {
    assert_eq!(position(&text("a=b=c"), '='), Some(1));
    assert_eq!(position(&text("=x"), '='), Some(0));
    assert_eq!(position(&text("abc"), '='), None);
    assert_eq!(position(&text(""), '='), None);
}

#[test]
fn contains_finds_a_run_anywhere() {
    assert!(contains(&text("ubuntu debian"), &text("debian")));
    assert!(contains(&text("debian"), &text("debian")));
    assert!(contains(&text("xdebianx"), &text("debian")));
    assert!(!contains(&text("debia"), &text("debian")));
    assert!(!contains(&text("deb ian"), &text("debian")));
    assert!(contains(&text("abc"), &text("")));
    assert!(contains(&text(""), &text("")));
    assert!(!contains(&text(""), &text("a")));
}

#[test]
fn occurs_at_checks_one_place() {
    assert!(occurs_at(&text("abcabc"), &text("bc"), 1));
    assert!(occurs_at(&text("abcabc"), &text("bc"), 4));
    assert!(!occurs_at(&text("abcabc"), &text("bc"), 0));
}

#[test]
fn starts_with_checks_the_front() {
    assert!(starts_with(&text("photos/a.jpg"), &text("photos/")));
    assert!(starts_with(&text("photos/"), &text("photos/")));
    assert!(starts_with(&text("photos/"), &text("")));
    assert!(!starts_with(&text("photo"), &text("photos/")));
    assert!(!starts_with(&text("xphotos/a"), &text("photos/")));
}

#[test]
fn stripping_white_space_is_trimming() {
    for s in ["  a b  ", "\t\"x\"\n", "", "   ", "a", " \u{3000}x\u{85}", "x  y"] {
        assert_eq!(stripped(&text(s), CharClass::Space), text(s.trim()), "{:?}", s);
    }
}

#[test]
fn stripping_one_character_is_trimming_its_matches() {
    for s in ["\"debian\"", "\"\"", "\"", "", "a\"b", "\"\"x\"", "x"] {
        assert_eq!(
            stripped(&text(s), CharClass::Exactly('"')),
            text(s.trim_matches('"')),
            "{:?}",
            s
        );
    }
}

#[test]
fn char_class_accepts_its_characters() {
    assert!(CharClass::Space.accepts(' '));
    assert!(!CharClass::Space.accepts('x'));
    assert!(CharClass::Exactly('"').accepts('"'));
    assert!(!CharClass::Exactly('"').accepts('\''));
}

#[test]
fn nothing_occurs_past_the_end() {
    assert!(!occurs_at(&text("abc"), &text("bc"), 2));
    assert!(!occurs_at(&text("abc"), &text("abcd"), 0));
    assert!(!occurs_at(&text("abc"), &text("c"), 3));
    assert!(occurs_at(&text("abc"), &text(""), 3));
    assert!(!occurs_at(&text("abc"), &text(""), 4));
}
