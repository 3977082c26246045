use jieba_navi_rs::punc::{NON_STOPS, PUNCTUATION, PUNCTUATION_CLASS, STOPS};
use jieba_navi_rs::{Classifier, Pattern, PatternError, TokenType};

#[test]
fn classify_empty_and_blank_tokens_as_space() {
    let classifier = Classifier::new().unwrap();
    for token in ["", " ", "\t", "\n", "\r\n", "  \t ", "\u{a0}", "\u{2003}", "\u{3000}"] {
        assert_eq!(classifier.classify(token), TokenType::Space, "{:?}", token);
    }
}

#[test]
fn classify_every_punctuation_mark() {
    let classifier = Classifier::new().unwrap();
    for mark in PUNCTUATION.chars() {
        let expected = if mark == '\u{3000}' {
            // The ideographic space is whitespace, and whitespace comes first.
            TokenType::Space
        } else {
            TokenType::Punc
        };
        assert_eq!(classifier.classify(&mark.to_string()), expected, "{:?}", mark);
    }
}

#[test]
fn classify_punctuation_before_other_characters() {
    let classifier = Classifier::new().unwrap();
    assert_eq!(classifier.classify("，"), TokenType::Punc);
    assert_eq!(classifier.classify("a，b"), TokenType::Punc);
    assert_eq!(classifier.classify("，-"), TokenType::Punc);
    assert_eq!(classifier.classify(" ，"), TokenType::Punc);
    assert_eq!(classifier.classify("。"), TokenType::Punc);
    assert_eq!(classifier.classify("\u{b7}"), TokenType::Punc);
}

#[test]
fn classify_non_word_characters() {
    let classifier = Classifier::new().unwrap();
    for token in ["-", "+", ".", "!", "a-b", "->", "a b", " a", "€", "<<"] {
        assert_eq!(classifier.classify(token), TokenType::NonWord, "{:?}", token);
    }
}

#[test]
fn classify_words() {
    let classifier = Classifier::new().unwrap();
    for token in ["Pixelmator", "Pro", "abc_123", "_", "在", "设计", "完全", "é", "१२"] {
        assert_eq!(classifier.classify(token), TokenType::Hans, "{:?}", token);
    }
}

#[test]
fn classify_every_ascii_character() {
    let classifier = Classifier::new().unwrap();
    for code in 0u8..128 {
        let c = code as char;
        let expected = if (9..=13).contains(&code) || code == 32 {
            TokenType::Space
        } else if c.is_ascii_alphanumeric() || c == '_' {
            TokenType::Hans
        } else {
            TokenType::NonWord
        };
        assert_eq!(classifier.classify(&c.to_string()), expected, "{:?}", c);
    }
}

#[test]
fn kind_from_tests_in_order() {
    assert_eq!(TokenType::from_tests(true, true, true), TokenType::Space);
    assert_eq!(TokenType::from_tests(true, false, false), TokenType::Space);
    assert_eq!(TokenType::from_tests(false, true, true), TokenType::Punc);
    assert_eq!(TokenType::from_tests(false, true, false), TokenType::Punc);
    assert_eq!(TokenType::from_tests(false, false, true), TokenType::NonWord);
    assert_eq!(TokenType::from_tests(false, false, false), TokenType::Hans);
}

#[test]
fn only_space_is_space() {
    assert!(TokenType::Space.is_space());
    assert!(!TokenType::Punc.is_space());
    assert!(!TokenType::NonWord.is_space());
    assert!(!TokenType::Hans.is_space());
}

#[test]
fn punctuation_table_is_complete() {
    assert_eq!(NON_STOPS.chars().count(), 77);
    assert_eq!(STOPS.chars().count(), 5);
    assert_eq!(PUNCTUATION, format!("{}{}", NON_STOPS, STOPS));
    assert_eq!(PUNCTUATION_CLASS, format!("[{}]", PUNCTUATION));
    assert_eq!(NON_STOPS.chars().next(), Some('\u{FF02}'));
    assert_eq!(NON_STOPS.chars().last(), Some('\u{00B7}'));
    assert_eq!(STOPS, "\u{FF0E}\u{FF01}\u{FF1F}\u{FF61}\u{3002}");
    assert!(PUNCTUATION.chars().all(|mark| !mark.is_ascii()));
    let mut marks: Vec<char> = PUNCTUATION.chars().collect();
    marks.sort();
    marks.dedup();
    assert_eq!(marks.len(), 82);
}

#[test]
fn pattern_reports_syntax_error() {
    assert!(matches!(Pattern::new("foo(bar"), Err(PatternError::Syntax(_))));
}

#[test]
fn pattern_reports_size_limit() {
    assert!(matches!(Pattern::new(r"\w{1000}"), Err(PatternError::TooBig(_))));
}

#[test]
fn pattern_matches_anywhere() {
    let class = Pattern::new("[，。]").unwrap();
    assert!(class.is_match("a，"));
    assert!(class.is_match("。"));
    assert!(!class.is_match("ab"));
    assert!(!class.is_match(""));
    let blank = Pattern::new(r"^\s+$").unwrap();
    assert!(blank.is_match(" \t"));
    assert!(blank.is_match("\n"));
    assert!(!blank.is_match(" a "));
    assert!(!blank.is_match(""));
    let non_word = Pattern::new(r"\W+").unwrap();
    assert!(non_word.is_match("a-b"));
    assert!(!non_word.is_match("a_b9"));
    assert!(!non_word.is_match("设计"));
}
