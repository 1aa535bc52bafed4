use whitebox_or::text::{
    append, chars_of, contains, matches_at, position_of, replace_all, same_text, slice, string_of,
};

fn chars(s: &str) -> Vec<char> {
    s.chars().collect()
}

fn replace(s: &str, from: &str, to: &str) -> String {
    string_of(&replace_all(&chars(s), &chars(from), &chars(to)))
}

#[test]
fn chars_and_back() {
    assert_eq!(chars_of(""), Vec::<char>::new());
    assert_eq!(chars_of("a-ß→𝄞"), vec!['a', '-', 'ß', '→', '𝄞']);
    assert_eq!(string_of(&vec!['a', '-', 'ß', '→', '𝄞']), "a-ß→𝄞");
    assert_eq!(string_of(&Vec::new()), "");
}

#[test]
fn append_puts_one_text_behind_another() {
    let mut text = chars("ab");
    append(&mut text, &chars("cd"));
    assert_eq!(text, chars("abcd"));
    append(&mut text, &chars(""));
    assert_eq!(text, chars("abcd"));
}

#[test]
fn slice_takes_a_part() {
    let text = chars("hello");
    assert_eq!(slice(&text, 1, 3), chars("el"));
    assert_eq!(slice(&text, 0, 5), chars("hello"));
    assert_eq!(slice(&text, 5, 5), chars(""));
}

#[test]
fn same_text_compares_character_by_character() {
    assert!(same_text(&chars("-i1"), &chars("-i1")));
    assert!(!same_text(&chars("-i1"), &chars("-i2")));
    assert!(!same_text(&chars("-i1"), &chars("-i")));
    assert!(same_text(&chars(""), &chars("")));
}

#[test]
fn matches_at_looks_at_one_place() {
    let text = chars("abcabc");
    assert!(matches_at(&text, &chars("abc"), 0));
    assert!(matches_at(&text, &chars("abc"), 3));
    assert!(!matches_at(&text, &chars("abc"), 1));
    assert!(!matches_at(&text, &chars("abc"), 4));
    assert!(matches_at(&text, &chars(""), 6));
    assert!(!matches_at(&text, &chars(""), 7));
    assert!(!matches_at(&text, &chars("a"), usize::MAX));
}

#[test]
fn contains_agrees_with_the_standard_library() {
    let texts = ["", "a", "abc", "tool.exe", "/usr/bin/tool", "aaa", "ab.exe.exe", "é/è"];
    let patterns = ["", "a", ".exe", "/", "aa", "abc", "abcd", "è", "b."];
    for s in texts {
        for pat in patterns {
            assert_eq!(contains(&chars(s), &chars(pat)), s.contains(pat), "{s:?} holds {pat:?}");
        }
    }
}

#[test]
fn position_of_finds_the_first() {
    assert_eq!(position_of(&chars("--input1=a=b"), '='), 8);
    assert_eq!(position_of(&chars("=x"), '='), 0);
    assert_eq!(position_of(&chars("none"), '='), 4);
    assert_eq!(position_of(&chars(""), '='), 0);
}

#[test]
fn replace_all_agrees_with_the_standard_library() {
    let texts =
        ["", "a", "aaa", "aaaa", "abcabc", "tool.exe", "/a/b/c", "a*b*c", "..", "ab.exe.exe.", "é*è"];
    let patterns = ["", "a", "aa", "abc", ".exe", ".", "/", "*", "è", "zz"];
    let replacements = ["", "-", "aa", "/", "ab"];
    for s in texts {
        for from in patterns {
            for to in replacements {
                assert_eq!(replace(s, from, to), s.replace(from, to), "{s:?}: {from:?} -> {to:?}");
            }
        }
    }
}

#[test]
fn replace_all_takes_occurrences_from_the_left() {
    assert_eq!(replace("aaa", "aa", "b"), "ba");
    assert_eq!(replace("ababa", "aba", "x"), "xba");
    assert_eq!(replace("ab", "", "-"), "-a-b-");
    assert_eq!(replace("", "", "-"), "-");
    assert_eq!(replace("abc", "abcd", "x"), "abc");
}
