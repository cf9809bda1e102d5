use mailpost::text::{
    decimal_chars, find, find_after_last, replace, slice, split_whitespace, to_chars, trim,
    whitespace,
};

fn chars(s: &str) -> Vec<char> {
    s.chars().collect()
}

#[test]
fn to_chars_gives_the_characters() {
    assert_eq!(to_chars("a\u{e9}\u{1f600}z"), vec!['a', '\u{e9}', '\u{1f600}', 'z']);
    assert_eq!(to_chars(""), Vec::<char>::new());
}

#[test]
fn whitespace_is_the_unicode_property() {
    let mut code: u32 = 0;
    while code <= 0x10FFFF {
        if let Some(c) = char::from_u32(code) {
            assert_eq!(whitespace(c), c.is_whitespace(), "U+{:04X}", code);
        }
        code += 1;
    }
}

#[test]
fn trim_agrees_with_std() {
    for sample in ["", " ", "a", "  a b \n", "\t\u{a0}x\u{3000}", "no-space", " \n \t "] {
        assert_eq!(trim(&chars(sample)), chars(sample.trim()), "{:?}", sample);
    }
}

#[test]
fn split_whitespace_agrees_with_std() {
    for sample in ["", "   ", "one", " one  two\tthree\n", "a\u{2003}b", "#x y"] {
        let expected: Vec<Vec<char>> = sample.split_whitespace().map(chars).collect();
        assert_eq!(split_whitespace(&chars(sample)), expected, "{:?}", sample);
    }
}

#[test]
fn slice_takes_a_range() {
    assert_eq!(slice(&chars("abcdef"), 2, 4), chars("cd"));
    assert_eq!(slice(&chars("abcdef"), 3, 3), chars(""));
    assert_eq!(slice(&chars("abcdef"), 0, 6), chars("abcdef"));
}

#[test]
fn find_gives_the_first_occurrence() {
    assert_eq!(find(&chars("a--b--c"), &chars("--")), Some(1));
    assert_eq!(find(&chars("---"), &chars("--")), Some(0));
    assert_eq!(find(&chars("a-b"), &chars("--")), None);
    assert_eq!(find(&chars(""), &chars("--")), None);
    assert_eq!(find(&chars("ab"), &chars("")), Some(0));
    assert_eq!(find(&chars("ab--"), &chars("--")), Some(2));
}

#[test]
fn find_after_last_gives_the_index_behind_the_mark() {
    assert_eq!(find_after_last(&chars("a.b.c"), '.'), Some(4));
    assert_eq!(find_after_last(&chars("abc."), '.'), Some(4));
    assert_eq!(find_after_last(&chars(".abc"), '.'), Some(1));
    assert_eq!(find_after_last(&chars("abc"), '.'), None);
    assert_eq!(find_after_last(&chars(""), '.'), None);
}

#[test]
fn replace_agrees_with_std() {
    let cases = [
        ("photo.jpeg", ".jpeg", ".jpg"),
        ("a.jpeg.jpeg", ".jpeg", ".jpg"),
        ("aaaa", "aa", "b"),
        ("aaa", "aa", "b"),
        ("abc", "x", "y"),
        ("", "x", "y"),
        ("xyx", "x", ""),
        ("ab", "abc", "z"),
    ];
    for (text, from, to) in cases {
        assert_eq!(
            replace(&chars(text), &chars(from), &chars(to)),
            chars(&text.replace(from, to)),
            "{:?}",
            (text, from, to)
        );
    }
}

#[test]
fn replace_of_nothing_changes_nothing() {
    assert_eq!(replace(&chars("ab"), &chars(""), &chars("z")), chars("ab"));
    assert_eq!(replace(&chars(""), &chars(""), &chars("z")), chars(""));
}

#[test]
fn decimal_chars_agrees_with_std() {
    for n in [0usize, 1, 9, 10, 11, 99, 100, 101, 12345, 1_000_000, usize::MAX] {
        assert_eq!(decimal_chars(n), chars(&n.to_string()));
    }
}
