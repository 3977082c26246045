use jieba_navi_rs::TokenType::{Hans, NonWord, Punc, Space};
use jieba_navi_rs::{
    insert_implicit_space_rule, merge_tokens, parse_tokens, stack_merge, Classifier, ParsedToken,
    TokenType,
};

fn token(start: usize, end: usize, token_type: TokenType) -> ParsedToken {
    ParsedToken::new(start, end, token_type)
}

fn kinds() -> [TokenType; 4] {
    [TokenType::Hans, TokenType::Punc, TokenType::Space, TokenType::NonWord]
}

fn sample_lines() -> Vec<Vec<ParsedToken>> {
    vec![
        vec![],
        vec![token(0, 3, Hans)],
        vec![token(0, 1, Hans), token(2, 3, Hans)],
        vec![token(0, 0, Punc), token(3, 3, Punc)],
        vec![token(0, 1, Hans), token(2, 2, Punc), token(5, 5, NonWord), token(6, 7, Hans)],
        vec![token(0, 1, Space), token(2, 2, Hans), token(5, 5, Punc), token(8, 9, Space)],
        vec![token(0, 0, NonWord), token(1, 1, NonWord), token(2, 4, Hans), token(5, 7, Hans)],
        vec![token(0, 0, Hans), token(0, 0, Hans)],
    ]
}

#[test]
fn scenario_classification_and_merge() {
    let classifier = Classifier::new().unwrap();
    let raw = vec!["Pixelmator", "-", "Pro", " ", "在", "设计", "，", "完全"];
    let parsed = parse_tokens(&classifier, &raw);
    let found: Vec<TokenType> = parsed.iter().map(|token| token.token_type).collect();
    assert_eq!(found, vec![Hans, NonWord, Hans, Space, Hans, Hans, Punc, Hans]);
    let merged = stack_merge(parsed, insert_implicit_space_rule);
    assert_eq!(
        merged,
        vec![
            token(0, 9, Hans),
            token(10, 10, NonWord),
            token(11, 13, Hans),
            token(14, 14, Space),
            token(15, 15, Hans),
            ParsedToken::implicit_space(18),
            token(18, 21, Hans),
            token(24, 24, Punc),
            ParsedToken::implicit_space(27),
            token(27, 30, Hans),
        ]
    );
}

#[test]
fn implicit_space_stands_for_no_character() {
    let mark = ParsedToken::implicit_space(18);
    assert_eq!(mark.start_byte_index, 18);
    assert_eq!(mark.token_type, TokenType::Space);
    assert!(mark.zero_width);
    assert!(!token(18, 18, TokenType::Space).zero_width);
    assert_ne!(mark, token(18, 18, TokenType::Space));
    assert_eq!(ParsedToken::implicit_space(0).start_byte_index, 0);
}

#[test]
fn rule_follows_the_table() {
    for prev in kinds() {
        for cur in kinds() {
            let before = token(0, 2, prev);
            let after = token(3, 5, cur);
            let insert = match (prev, cur) {
                (Hans, Hans) => true,
                (Punc, Hans) | (Punc, Punc) | (Punc, NonWord) => true,
                _ => false,
            };
            let outcome = insert_implicit_space_rule(Some(before), after);
            if insert {
                assert_eq!(
                    outcome,
                    Ok(vec![before, ParsedToken::implicit_space(3), after]),
                    "{:?} {:?}",
                    prev,
                    cur
                );
            } else {
                assert_eq!(outcome, Err((Some(before), after)), "{:?} {:?}", prev, cur);
            }
        }
    }
}

#[test]
fn rule_leaves_the_first_token_alone() {
    for cur in kinds() {
        let first = token(0, 2, cur);
        assert_eq!(insert_implicit_space_rule(None, first), Err((None, first)));
    }
}

#[test]
fn merge_tokens_is_stack_merge_with_the_rule() {
    for line in sample_lines() {
        assert_eq!(merge_tokens(line.clone()), stack_merge(line, insert_implicit_space_rule));
    }
}

#[test]
fn merge_marks_a_boundary_at_offset_zero() {
    let line = vec![token(0, 0, TokenType::Hans), token(0, 0, TokenType::Hans)];
    assert_eq!(
        merge_tokens(line),
        vec![
            token(0, 0, TokenType::Hans),
            ParsedToken::implicit_space(0),
            token(0, 0, TokenType::Hans),
        ]
    );
}

#[test]
fn merge_twice_is_merge_once() {
    for line in sample_lines() {
        let once = merge_tokens(line);
        let twice = merge_tokens(once.clone());
        assert_eq!(twice, once);
    }
}

#[test]
fn merge_keeps_the_tokens_that_are_not_space() {
    for line in sample_lines() {
        let before: Vec<ParsedToken> =
            line.iter().copied().filter(|token| token.token_type != TokenType::Space).collect();
        let after: Vec<ParsedToken> = merge_tokens(line)
            .into_iter()
            .filter(|token| token.token_type != TokenType::Space)
            .collect();
        assert_eq!(after, before);
    }
}

#[test]
fn merge_puts_marks_only_where_the_table_says() {
    for line in sample_lines() {
        let merged = merge_tokens(line);
        for (j, mark) in merged.iter().enumerate() {
            if !mark.zero_width {
                continue;
            }
            assert!(0 < j && j + 1 < merged.len());
            let before = merged[j - 1];
            let after = merged[j + 1];
            assert_eq!(*mark, ParsedToken::implicit_space(after.start_byte_index));
            assert!(before.token_type == Hans || before.token_type == Punc);
            assert_ne!(after.token_type, Space);
            if after.token_type == NonWord {
                assert_eq!(before.token_type, Punc);
            }
        }
    }
}

#[test]
fn merge_marks_a_boundary_before_non_word_after_punctuation() {
    let line = vec![token(0, 0, TokenType::Punc), token(3, 3, TokenType::NonWord)];
    assert_eq!(
        merge_tokens(line),
        vec![
            token(0, 0, TokenType::Punc),
            ParsedToken::implicit_space(3),
            token(3, 3, TokenType::NonWord),
        ]
    );
}
