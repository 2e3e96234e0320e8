use better_terminal::numeral::{decimal_string, Numeral};
use better_terminal::text::{
    chars_of, find_char, is_space_char, join, lines_of, same_text, stretch_is, stretch_of,
    trimmed_bounds,
};

fn trimmed(s: &str) -> String {
    let chars = chars_of(s);
    let (from, to) = trimmed_bounds(&chars, 0, chars.len());
    stretch_of(s, from, to)
}

#[test]
fn white_space_is_what_the_standard_library_calls_so() {
    let mut n: u32 = 0;
    while n <= 0x10FFFF {
        if let Some(c) = char::from_u32(n) {
            assert_eq!(is_space_char(c), c.is_whitespace(), "code point {:#x}", n);
        }
        n += 1;
    }
}

#[test]
fn trimming_agrees_with_the_standard_library() {
    let samples = vec![
        "",
        " ",
        "a",
        "  a  ",
        "\ta b\r\n",
        "\u{3000}x\u{a0}",
        "x y",
        "   ",
        "é ",
        "\u{2028}\u{2029}",
        " = ",
    ];
    for s in samples {
        assert_eq!(trimmed(s), s.trim(), "{:?}", s);
    }
}

#[test]
fn trimmed_bounds_of_a_stretch() {
    let chars = chars_of("ab  cd  =  ef ");
    assert_eq!(trimmed_bounds(&chars, 2, 8), (4, 6));
    assert_eq!(trimmed_bounds(&chars, 9, 14), (11, 13));
    assert_eq!(trimmed_bounds(&chars, 2, 4), (4, 4));
    assert_eq!(trimmed_bounds(&chars, 3, 3), (3, 3));
}

#[test]
fn find_char_gives_the_first_place() {
    let chars = chars_of("a=b=c");
    assert_eq!(find_char(&chars, 0, 5, '='), 1);
    assert_eq!(find_char(&chars, 2, 5, '='), 3);
    assert_eq!(find_char(&chars, 4, 5, '='), 5);
    assert_eq!(find_char(&chars, 0, 1, '='), 1);
    assert_eq!(find_char(&chars, 0, 0, '='), 0);
}

#[test]
fn stretches_are_compared_exactly() {
    let chars = chars_of("titlebar = true");
    assert!(stretch_is(&chars, 0, 8, "titlebar"));
    assert!(!stretch_is(&chars, 0, 7, "titlebar"));
    assert!(!stretch_is(&chars, 0, 9, "titlebar"));
    assert!(!stretch_is(&chars, 0, 8, "titlebaR"));
    assert!(stretch_is(&chars, 11, 15, "true"));
    assert!(stretch_is(&chars, 3, 3, ""));
    assert!(same_text("é=", "é="));
    assert!(!same_text("a", "ab"));
    assert!(!same_text("ab", "a"));
    assert!(same_text("", ""));
}

#[test]
fn stretch_of_counts_characters() {
    assert_eq!(stretch_of("héllo wörld", 1, 4), "éll");
    assert_eq!(stretch_of("abc", 0, 3), "abc");
    assert_eq!(stretch_of("abc", 2, 2), "");
}

#[test]
fn lines_agree_with_the_standard_library() {
    let samples = vec![
        "",
        "\n",
        "a",
        "a\n",
        "a\nb",
        "a\n\nb\n",
        "a\r\nb\r\n",
        "a\rb",
        "a\r",
        "a\r\r\n",
        "\r\n",
        "\n\n",
        "foo\nbar\n\r\nbaz\r",
        "é = ü\nx",
    ];
    for s in samples {
        let expected: Vec<String> = s.lines().map(|l| l.to_string()).collect();
        assert_eq!(lines_of(s), expected, "{:?}", s);
    }
}

#[test]
fn lines_of_a_small_text() {
    assert_eq!(lines_of("a = 1\r\n\nb"), vec!["a = 1", "", "b"]);
    assert_eq!(lines_of(""), Vec::<String>::new());
}

#[test]
fn join_puts_one_line_feed_between_lines() {
    let none: Vec<String> = Vec::new();
    assert_eq!(join(&none), "");
    assert_eq!(join(&vec!["a".to_string()]), "a");
    assert_eq!(join(&vec!["a".to_string(), "b".to_string()]), "a\nb");
    assert_eq!(join(&vec!["a".to_string(), String::new(), "b".to_string()]), "a\n\nb");
    assert_eq!(join(&vec![String::new(), String::new()]), "\n");
}

#[test]
fn numerals_are_what_parses_as_a_float() {
    let samples = vec![
        "1", "12", "1.5", ".5", "5.", "0.85", "1e10", "1E-3", "1e+3", "+1", "-1", "-.5e2", "inf",
        "-inf", "+infinity", "Infinity", "NaN", "nan", "-nan", "", ".", "+", "-", "e5", "1e",
        "1e+", "abc", "1.2.3", " 1", "1 ", "0x10", "1_000", "1,5", "--1", "+-1", "in", "infinit",
        "nan1", "1f", "1.e5", ".e5", "١", "1\n", "1e5.0", "infx", "１",
    ];
    for s in samples {
        assert_eq!(Numeral::parse(s).is_some(), s.parse::<f64>().is_ok(), "{:?}", s);
    }
}

#[test]
fn a_numeral_keeps_its_text() {
    let n = Numeral::parse("0.85").unwrap();
    assert_eq!(n.as_str(), "0.85");
    assert_eq!(n.clone().as_str(), "0.85");
    assert_eq!(n.as_str().parse::<f64>().unwrap(), 0.85);
    assert!(Numeral::parse("twelve").is_none());
}

#[test]
fn decimal_strings_have_no_leading_zeros() {
    assert_eq!(decimal_string(0), "0");
    assert_eq!(decimal_string(7), "7");
    assert_eq!(decimal_string(10), "10");
    assert_eq!(decimal_string(15), "15");
    assert_eq!(decimal_string(1234567890), "1234567890");
    let mut n: usize = 0;
    while n < 2000 {
        assert_eq!(decimal_string(n), format!("{}", n));
        n += 1;
    }
}

fn words_over(alphabet: &[char], longest: usize) -> Vec<String> {
    let mut all = vec![String::new()];
    let mut last = vec![String::new()];
    for _ in 0..longest {
        let mut next = Vec::new();
        for word in &last {
            for c in alphabet {
                let mut longer = word.clone();
                longer.push(*c);
                next.push(longer);
            }
        }
        all.extend(next.iter().cloned());
        last = next;
    }
    all
}

#[test]
fn every_short_text_is_a_numeral_exactly_when_it_parses_as_a_float() {
    let alphabet = ['0', '7', '.', 'e', 'E', '+', '-', 'i', 'n', 'f', 'a', ' '];
    for word in words_over(&alphabet, 4) {
        assert_eq!(Numeral::parse(&word).is_some(), word.parse::<f64>().is_ok(), "{:?}", word);
    }
    let alphabet = ['1', '.', 'e', '-', 'N', 'a', 'I', 'n', 'f'];
    for word in words_over(&alphabet, 5) {
        assert_eq!(Numeral::parse(&word).is_some(), word.parse::<f64>().is_ok(), "{:?}", word);
    }
    for word in ["infinity", "INFINITY", "-Infinity", "+iNfInItY", "infinityy", "infinit", "1e-10"] {
        assert_eq!(Numeral::parse(word).is_some(), word.parse::<f64>().is_ok(), "{:?}", word);
    }
}
