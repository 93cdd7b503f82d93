use orredis::parsers::extract_str_portions;
use orredis::text::{char_is_whitespace, chars_of, push_chars, push_str, same_chars, same_text};

fn std_portions<'a>(value: &'a str, start: &str, end: &str, separator: &str) -> Vec<&'a str> {
    value
        .trim_start_matches(start)
        .trim_end_matches(end)
        .split(separator)
        .map(|v| v.trim().trim_end_matches('\'').trim_start_matches('\''))
        .collect()
}

#[test]
fn portions_of_a_list() {
    assert_eq!(extract_str_portions("[1, 2, 3]", "[", "]", ","), vec!["1", "2", "3"]);
}

#[test]
fn portions_of_a_quoted_list() {
    assert_eq!(extract_str_portions("['a', 'b c',  'd']", "[", "]", ","), vec!["a", "b c", "d"]);
}

#[test]
fn portions_of_a_dictionary() {
    assert_eq!(
        extract_str_portions("{'a': 1, 'b': 2}", "{", "}", ","),
        vec!["a': 1", "b': 2"]
    );
    assert_eq!(extract_str_portions("a': 1", "", "", ":"), vec!["a", "1"]);
}

#[test]
fn portions_of_an_empty_list_is_one_empty_portion() {
    assert_eq!(extract_str_portions("[]", "[", "]", ","), vec![""]);
    assert_eq!(extract_str_portions("", "[", "]", ","), vec![""]);
}

#[test]
fn every_leading_and_trailing_bracket_is_taken_off() {
    assert_eq!(extract_str_portions("[[1, 2], [3]]", "[", "]", ","), vec!["1", "2]", "[3"]);
}

#[test]
fn portions_with_longer_patterns() {
    assert_eq!(extract_str_portions("<<<<a--b--c>>", "<<", ">>", "--"), vec!["a", "b", "c"]);
    assert_eq!(extract_str_portions("aaa", "aa", "aa", ","), vec!["a"]);
    assert_eq!(extract_str_portions("a---b", "", "", "--"), vec!["a", "-b"]);
}

#[test]
fn portions_with_an_empty_separator() {
    assert_eq!(extract_str_portions("ab", "", "", ""), vec!["", "a", "b", ""]);
    assert_eq!(extract_str_portions("", "", "", ""), vec!["", ""]);
}

#[test]
fn portions_agree_with_the_standard_library() {
    let values = [
        "",
        "[]",
        "[1]",
        "[1,2,,3]",
        " [ 1 , 2 ] ",
        "['x', \"y\", ''z'']",
        "{'k': 'v', 'k2': 'v:2'}",
        "(1, 'a', 2.5)",
        "[[[",
        "]]]",
        ",",
        ",,",
        "[\u{a0}1\u{2003},\t2\n]",
        "\u{3000}x\u{3000}",
        "['\u{e9}t\u{e9}', '\u{1f600}']",
        "'",
        "' '",
        "[' a ']",
    ];
    let patterns = [("[", "]", ","), ("{", "}", ","), ("(", ")", ","), ("", "", ":"), ("'", "'", "'")];
    for value in values {
        for (start, end, separator) in patterns {
            assert_eq!(
                extract_str_portions(value, start, end, separator),
                std_portions(value, start, end, separator),
                "value {:?} with {:?} {:?} {:?}",
                value,
                start,
                end,
                separator
            );
        }
    }
}

#[test]
fn white_space_agrees_with_the_standard_library() {
    let mut code: u32 = 0;
    while code <= 0x3100 {
        if let Some(c) = char::from_u32(code) {
            assert_eq!(char_is_whitespace(c), c.is_whitespace(), "code point {:x}", code);
        }
        code += 1;
    }
    assert!(!char_is_whitespace('\u{feff}'));
    assert!(!char_is_whitespace('\u{200b}'));
}

#[test]
fn characters_of_a_text() {
    let mut chars = chars_of("h\u{e9}llo");
    assert_eq!(chars, vec!['h', '\u{e9}', 'l', 'l', 'o']);
    push_str(&mut chars, ", w");
    push_chars(&mut chars, &vec!['o', 'r']);
    assert_eq!(chars.iter().collect::<String>(), "h\u{e9}llo, wor");
    assert!(same_chars(&chars_of("ab"), &vec!['a', 'b']));
    assert!(!same_chars(&chars_of("ab"), &vec!['a']));
}

#[test]
fn same_text_compares_contents() {
    assert!(same_text("abc", "abc"));
    assert!(!same_text("abc", "abd"));
    assert!(!same_text("abc", "ab"));
    assert!(same_text("", ""));
}

#[test]
fn portions_of_every_short_text_agree_with_the_standard_library() {
    let alphabet = ['[', ']', ',', ' ', '\'', 'a', '\u{a0}'];
    let mut texts: Vec<String> = vec![String::new()];
    let mut start = 0;
    for _ in 0..5 {
        let end = texts.len();
        for i in start..end {
            for c in alphabet {
                let mut longer = texts[i].clone();
                longer.push(c);
                texts.push(longer);
            }
        }
        start = end;
    }
    let patterns = [
        ("[", "]", ","),
        ("[[", "]]", ", "),
        ("", "", "'"),
        ("a", "a", "a"),
        ("[,", ",]", "[]"),
        (" ", " ", ""),
    ];
    for text in &texts {
        for (start, end, separator) in patterns {
            assert_eq!(
                extract_str_portions(text, start, end, separator),
                std_portions(text, start, end, separator),
                "value {:?} with {:?} {:?} {:?}",
                text,
                start,
                end,
                separator
            );
        }
    }
}
