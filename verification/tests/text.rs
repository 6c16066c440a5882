use note_digest::order::{le_chars, sort_ascending};
use note_digest::text::{chars_of, contains_chars, is_white_space, string_of, string_of_range, trim};

fn chars(s: &str) -> Vec<char> {
    s.chars().collect()
}

#[test]
fn strings_and_characters() {
    assert_eq!(chars_of("a\u{e9}\u{3042}z"), vec!['a', '\u{e9}', '\u{3042}', 'z']);
    assert_eq!(string_of(&chars("a\u{e9}\u{3042}z")), "a\u{e9}\u{3042}z");
    assert_eq!(string_of_range(&chars("abcdef"), 2, 4), "cd");
    assert_eq!(string_of_range(&chars("abcdef"), 3, 3), "");
}

#[test]
fn white_space_follows_the_standard_library() {
    for code in 0..=0x30FFu32 {
        if let Some(c) = char::from_u32(code) {
            assert_eq!(is_white_space(c), c.is_whitespace(), "U+{:04X}", code);
        }
    }
    assert!(!is_white_space('\u{180E}'));
    assert!(!is_white_space('\u{FEFF}'));
}

#[test]
fn trimming() {
    assert_eq!(trim("  a b \t\r"), "a b");
    assert_eq!(trim("\u{3000}x\u{a0}"), "x");
    assert_eq!(trim(" \t "), "");
    assert_eq!(trim(""), "");
    assert_eq!(trim("x"), "x");
}

#[test]
fn search() {
    assert!(contains_chars(&chars("say *TODO* now"), &chars("*TODO*")));
    assert!(contains_chars(&chars("*TODO*"), &chars("*TODO*")));
    assert!(!contains_chars(&chars("*TODO"), &chars("*TODO*")));
    assert!(!contains_chars(&chars("*todo*"), &chars("*TODO*")));
    assert!(contains_chars(&chars("abc"), &chars("")));
    assert!(contains_chars(&chars(""), &chars("")));
    assert!(!contains_chars(&chars(""), &chars("a")));
    assert!(contains_chars(&chars("aab"), &chars("ab")));
}

#[test]
fn lexicographic_order() {
    assert!(le_chars(&chars(""), &chars("")));
    assert!(le_chars(&chars(""), &chars("a")));
    assert!(!le_chars(&chars("a"), &chars("")));
    assert!(le_chars(&chars("ab"), &chars("abc")));
    assert!(!le_chars(&chars("abd"), &chars("abc")));
    assert!(le_chars(&chars("(2000/01/01 00:00)"), &chars("(2024/07/13 04:38)")));
    assert!(le_chars(&chars("(2024/07/13 04:38)"), &chars("(2024/07/13 04:39)")));
    assert!(!le_chars(&chars("(2024/10/01 00:00)"), &chars("(2024/09/30 23:59)")));
    assert!(le_chars(&chars("z"), &chars("\u{e9}")));
}

#[test]
fn sorting_agrees_with_the_standard_library() {
    let mut ours: Vec<String> = ["b", "", "ab", "a", "\u{e9}", "z", "ab", "aa", "B"]
        .iter()
        .map(|s| s.to_string())
        .collect();
    let mut theirs = ours.clone();
    sort_ascending(&mut ours);
    theirs.sort();
    assert_eq!(ours, theirs);
    let mut none: Vec<String> = Vec::new();
    sort_ascending(&mut none);
    assert!(none.is_empty());
}
