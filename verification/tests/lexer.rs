use pathtracer::scene::lexer::{chars_of, find, split_statements, split_words, whitespace};

fn chars(s: &str) -> Vec<char> {
    s.chars().collect()
}

fn text(token: &[char]) -> String {
    token.iter().collect()
}

fn statements_by_std(script: &str) -> Vec<Vec<String>> {
    script
        .lines()
        .map(|line| line.trim().to_string())
        .filter(|line| line.len() > 0)
        .map(|line| line.split_whitespace().map(|w| w.to_string()).collect())
        .collect()
}

fn statements_by_library(script: &str) -> Vec<Vec<String>> {
    split_statements(script)
        .iter()
        .map(|line| line.iter().map(|w| text(w)).collect())
        .collect()
}

#[test]
fn whitespace_is_the_unicode_property() {
    let mut code: u32 = 0;
    while code <= 0x10FFFF {
        if let Some(c) = char::from_u32(code) {
            assert_eq!(whitespace(c), c.is_whitespace(), "U+{:04X}", code);
        }
        code += 1;
    }
}

#[test]
fn whitespace_examples() {
    assert!(whitespace(' '));
    assert!(whitespace('\t'));
    assert!(whitespace('\n'));
    assert!(whitespace('\r'));
    assert!(whitespace('\u{00A0}'));
    assert!(whitespace('\u{3000}'));
    assert!(!whitespace('a'));
    assert!(!whitespace('_'));
    assert!(!whitespace('\u{200B}'));
    assert!(!whitespace('\0'));
}

#[test]
fn chars_of_keeps_every_character() {
    assert_eq!(chars_of(""), Vec::<char>::new());
    assert_eq!(chars_of("a b"), vec!['a', ' ', 'b']);
    assert_eq!(chars_of("é\u{3000}ü"), vec!['é', '\u{3000}', 'ü']);
}

#[test]
fn find_stops_at_the_first_occurrence() {
    let s = chars("ab_cd_e");
    assert_eq!(find(&s, '_'), 2);
    assert_eq!(find(&s[3..], '_'), 2);
    assert_eq!(find(&s[6..], '_'), 1);
    assert_eq!(find(&s, 'a'), 0);
    assert_eq!(find(&s, 'e'), 6);
    assert_eq!(find(&s, 'x'), 7);
    assert_eq!(find(&[], 'x'), 0);
}

#[test]
fn split_words_finds_maximal_runs() {
    let s = chars("  OBJ\tsphere   red 0 0 -1 0.5  ");
    let words: Vec<String> = split_words(&s).iter().map(|w| text(w)).collect();
    assert_eq!(words, vec!["OBJ", "sphere", "red", "0", "0", "-1", "0.5"]);
}

#[test]
fn split_words_of_a_part() {
    let s = chars("alpha beta gamma");
    let words: Vec<String> = split_words(&s[3..12]).iter().map(|w| text(w)).collect();
    assert_eq!(words, vec!["ha", "beta", "g"]);
    assert!(split_words(&s[5..5]).is_empty());
    assert!(split_words(&s[5..6]).is_empty());
}

#[test]
fn split_words_of_blank_text_is_empty() {
    let s = chars(" \t \u{00A0} ");
    assert!(split_words(&s).is_empty());
    assert!(split_words(&[]).is_empty());
}

#[test]
fn a_word_is_kept_whole() {
    let s = chars("sphere");
    assert_eq!(split_words(&s), vec![chars("sphere")]);
    let s = chars("a");
    assert_eq!(split_words(&s), vec![chars("a")]);
}

#[test]
fn statements_skip_blank_lines() {
    let got = statements_by_library("CAM 1 2 3\n\n   \nMAT a light 1 1 1\n");
    assert_eq!(
        got,
        vec![
            vec!["CAM", "1", "2", "3"],
            vec!["MAT", "a", "light", "1", "1", "1"],
        ]
    );
}

#[test]
fn statements_of_empty_text() {
    assert!(split_statements("").is_empty());
    assert!(split_statements("\n\n\n").is_empty());
    assert!(split_statements("  \r\n\t\r\n").is_empty());
}

#[test]
fn statements_agree_with_std() {
    let scripts = [
        "",
        "\n",
        "a",
        "a\n",
        "a\nb",
        "a\r\nb\r\n",
        "a\rb\nc",
        "  CAM 0 0 0   0 0 -1 90  \n// a comment\n\n~ 3\nOBJ sphere m 0_1 0 0 1\n",
        "\t\tMAT\tred\tlambertian\t1\t0\t0\r\n\r\n",
        "one\u{000B}two\u{000C}three\nfour\u{0085}five",
        "wide\u{3000}space\u{2028}separator\u{2029}paragraph",
        "\u{00A0}nbsp\u{00A0}\n\u{1680}\n\u{2003}em\u{205F}\n",
        "last line without newline   ",
        "\n\n\nx\n\n\ny\n\n\n",
        "zero\u{200B}width is no space",
        "trailing carriage return\r",
    ];
    for script in scripts.iter() {
        assert_eq!(statements_by_library(script), statements_by_std(script), "{:?}", script);
    }
}
