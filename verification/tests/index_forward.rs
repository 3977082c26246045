use jieba_navi_rs::{
    index_first_end_of_WORD, index_first_end_of_word, index_first_start_of_WORD, index_first_start_of_word, index_next_end_of_WORD, index_next_end_of_word, index_next_start_of_WORD, index_next_start_of_word,
    insert_implicit_space_rule, stack_merge, ParsedToken, TokenType,
};

fn new_pt(start: usize, end: usize, token_type: TokenType) -> ParsedToken {
    ParsedToken::new(start, end, token_type)
}

#[test]
fn test_index_first_start_of_word() {
    let pt = vec![];
    assert_eq!(index_first_start_of_word(&pt), Some(0));

    let pt = vec![new_pt(0, 1, TokenType::Hans), new_pt(2, 3, TokenType::Hans)];
    let pt = stack_merge(pt, insert_implicit_space_rule);
    assert_eq!(index_first_start_of_word(&pt), Some(0));

    let pt = vec![
        new_pt(0, 2, TokenType::Space),
        new_pt(3, 6, TokenType::Punc),
        new_pt(9, 12, TokenType::Hans),
    ];
    let pt = stack_merge(pt, insert_implicit_space_rule);
    assert_eq!(index_first_start_of_word(&pt), Some(3));

    let pt = vec![new_pt(0, 0, TokenType::Punc), new_pt(3, 3, TokenType::Punc)];
    let pt = stack_merge(pt, insert_implicit_space_rule);
    assert_eq!(index_first_start_of_word(&pt), Some(0));
}

#[test]
fn test_index_next_start_of_word() {
    let pt = vec![];
    assert_eq!(index_next_start_of_word(&pt, 0), None);

    let pt = vec![new_pt(0, 3, TokenType::Hans)];
    let pt = stack_merge(pt, insert_implicit_space_rule);
    assert_eq!(index_next_start_of_word(&pt, 0), None);
    assert_eq!(index_next_start_of_word(&pt, 1), None);
    assert_eq!(index_next_start_of_word(&pt, 3), None);

    let pt = vec![new_pt(0, 3, TokenType::Hans), new_pt(4, 5, TokenType::Hans)];
    let pt = stack_merge(pt, insert_implicit_space_rule);
    assert_eq!(index_next_start_of_word(&pt, 0), Some(4));
    assert_eq!(index_next_start_of_word(&pt, 1), Some(4));
    assert_eq!(index_next_start_of_word(&pt, 3), Some(4));
    assert_eq!(index_next_start_of_word(&pt, 4), None);
    assert_eq!(index_next_start_of_word(&pt, 5), None);

    let pt = vec![new_pt(0, 3, TokenType::Hans), new_pt(6, 9, TokenType::Hans)];
    let pt = stack_merge(pt, insert_implicit_space_rule);
    assert_eq!(index_next_start_of_word(&pt, 0), Some(6));
    assert_eq!(index_next_start_of_word(&pt, 1), Some(6));
    assert_eq!(index_next_start_of_word(&pt, 3), Some(6));
    assert_eq!(index_next_start_of_word(&pt, 4), Some(6));
    assert_eq!(index_next_start_of_word(&pt, 5), Some(6));
    assert_eq!(index_next_start_of_word(&pt, 6), None);
    assert_eq!(index_next_start_of_word(&pt, 7), None);
    assert_eq!(index_next_start_of_word(&pt, 9), None);

    let pt = vec![
        new_pt(0, 2, TokenType::Space),
        new_pt(3, 6, TokenType::Hans),
        new_pt(7, 7, TokenType::Punc),
    ];
    let pt = stack_merge(pt, insert_implicit_space_rule);
    assert_eq!(index_next_start_of_word(&pt, 0), Some(3));
    assert_eq!(index_next_start_of_word(&pt, 2), Some(3));
    assert_eq!(index_next_start_of_word(&pt, 3), Some(7));
    assert_eq!(index_next_start_of_word(&pt, 6), Some(7));
    assert_eq!(index_next_start_of_word(&pt, 7), None);

    let pt = vec![
        new_pt(0, 1, TokenType::Space),
        new_pt(2, 3, TokenType::Punc),
        new_pt(5, 6, TokenType::Hans),
        new_pt(8, 9, TokenType::Space),
    ];
    let pt = stack_merge(pt, insert_implicit_space_rule);
    assert_eq!(index_next_start_of_word(&pt, 0), Some(2));
    assert_eq!(index_next_start_of_word(&pt, 1), Some(2));
    assert_eq!(index_next_start_of_word(&pt, 2), Some(5));
    assert_eq!(index_next_start_of_word(&pt, 3), Some(5));
    assert_eq!(index_next_start_of_word(&pt, 4), Some(5));
    assert_eq!(index_next_start_of_word(&pt, 5), None);
    assert_eq!(index_next_start_of_word(&pt, 6), None);
    assert_eq!(index_next_start_of_word(&pt, 7), None);
    assert_eq!(index_next_start_of_word(&pt, 8), None);
    assert_eq!(index_next_start_of_word(&pt, 9), None);

    let pt = vec![new_pt(0, 0, TokenType::Punc), new_pt(3, 3, TokenType::Punc)];
    let pt = stack_merge(pt, insert_implicit_space_rule);
    assert_eq!(index_next_start_of_word(&pt, 0), Some(3));
    assert_eq!(index_next_start_of_word(&pt, 1), Some(3));
    assert_eq!(index_next_start_of_word(&pt, 2), Some(3));
    assert_eq!(index_next_start_of_word(&pt, 3), None);
}

#[test]
#[allow(non_snake_case)]
fn test_index_first_start_of_WORD() {
    let pt = vec![];
    assert_eq!(index_first_start_of_WORD(&pt), Some(0));

    let pt = vec![new_pt(0, 1, TokenType::Hans), new_pt(2, 3, TokenType::Hans)];
    let pt = stack_merge(pt, insert_implicit_space_rule);
    assert_eq!(index_first_start_of_WORD(&pt), Some(0));

    let pt = vec![
        new_pt(0, 2, TokenType::Space),
        new_pt(3, 6, TokenType::Punc),
        new_pt(9, 12, TokenType::Hans),
    ];
    let pt = stack_merge(pt, insert_implicit_space_rule);
    assert_eq!(index_first_start_of_WORD(&pt), Some(3));

    let pt = vec![new_pt(0, 0, TokenType::Punc), new_pt(3, 3, TokenType::Punc)];
    let pt = stack_merge(pt, insert_implicit_space_rule);
    assert_eq!(index_first_start_of_WORD(&pt), Some(0));
}

#[test]
#[allow(non_snake_case)]
fn test_index_next_start_of_WORD() {
    let pt = vec![];
    assert_eq!(index_next_start_of_WORD(&pt, 0), None);

    let pt = vec![new_pt(0, 3, TokenType::Hans)];
    let pt = stack_merge(pt, insert_implicit_space_rule);
    assert_eq!(index_next_start_of_WORD(&pt, 0), None);
    assert_eq!(index_next_start_of_WORD(&pt, 1), None);
    assert_eq!(index_next_start_of_WORD(&pt, 3), None);

    let pt = vec![new_pt(0, 3, TokenType::Hans), new_pt(4, 5, TokenType::Hans)];
    let pt = stack_merge(pt, insert_implicit_space_rule);
    assert_eq!(index_next_start_of_WORD(&pt, 0), Some(4));
    assert_eq!(index_next_start_of_WORD(&pt, 1), Some(4));
    assert_eq!(index_next_start_of_WORD(&pt, 3), Some(4));
    assert_eq!(index_next_start_of_WORD(&pt, 4), None);
    assert_eq!(index_next_start_of_WORD(&pt, 5), None);

    let pt = vec![new_pt(0, 3, TokenType::Hans), new_pt(6, 9, TokenType::Hans)];
    let pt = stack_merge(pt, insert_implicit_space_rule);
    assert_eq!(index_next_start_of_WORD(&pt, 0), Some(6));
    assert_eq!(index_next_start_of_WORD(&pt, 1), Some(6));
    assert_eq!(index_next_start_of_WORD(&pt, 3), Some(6));
    assert_eq!(index_next_start_of_WORD(&pt, 4), Some(6));
    assert_eq!(index_next_start_of_WORD(&pt, 5), Some(6));
    assert_eq!(index_next_start_of_WORD(&pt, 6), None);
    assert_eq!(index_next_start_of_WORD(&pt, 7), None);
    assert_eq!(index_next_start_of_WORD(&pt, 9), None);

    let pt = vec![
        new_pt(0, 2, TokenType::Space),
        new_pt(3, 6, TokenType::Hans),
        new_pt(7, 7, TokenType::Punc),
    ];
    let pt = stack_merge(pt, insert_implicit_space_rule);
    assert_eq!(index_next_start_of_WORD(&pt, 0), Some(3));
    assert_eq!(index_next_start_of_WORD(&pt, 2), Some(3));
    assert_eq!(index_next_start_of_WORD(&pt, 3), None);
    assert_eq!(index_next_start_of_WORD(&pt, 6), None);
    assert_eq!(index_next_start_of_WORD(&pt, 7), None);

    let pt = vec![
        new_pt(0, 1, TokenType::Space),
        new_pt(2, 3, TokenType::Punc),
        new_pt(5, 6, TokenType::Hans),
        new_pt(8, 9, TokenType::Space),
    ];
    let pt = stack_merge(pt, insert_implicit_space_rule);
    assert_eq!(index_next_start_of_WORD(&pt, 0), Some(2));
    assert_eq!(index_next_start_of_WORD(&pt, 1), Some(2));
    assert_eq!(index_next_start_of_WORD(&pt, 2), Some(5));
    assert_eq!(index_next_start_of_WORD(&pt, 3), Some(5));
    assert_eq!(index_next_start_of_WORD(&pt, 4), Some(5));
    assert_eq!(index_next_start_of_WORD(&pt, 5), None);
    assert_eq!(index_next_start_of_WORD(&pt, 6), None);
    assert_eq!(index_next_start_of_WORD(&pt, 7), None);
    assert_eq!(index_next_start_of_WORD(&pt, 8), None);
    assert_eq!(index_next_start_of_WORD(&pt, 9), None);

    let pt = vec![new_pt(0, 0, TokenType::Punc), new_pt(3, 3, TokenType::Punc)];
    let pt = stack_merge(pt, insert_implicit_space_rule);
    assert_eq!(index_next_start_of_WORD(&pt, 0), Some(3));
    assert_eq!(index_next_start_of_WORD(&pt, 1), Some(3));
    assert_eq!(index_next_start_of_WORD(&pt, 2), Some(3));
    assert_eq!(index_next_start_of_WORD(&pt, 3), None);
}

#[test]
fn test_index_first_end_of_word() {
    let pt = vec![];
    assert_eq!(index_first_end_of_word(&pt), Some(0));

    let pt = vec![new_pt(0, 1, TokenType::Hans), new_pt(2, 3, TokenType::Hans)];
    let pt = stack_merge(pt, insert_implicit_space_rule);
    assert_eq!(index_first_end_of_word(&pt), Some(1));

    let pt = vec![
        new_pt(0, 2, TokenType::Space),
        new_pt(3, 6, TokenType::Punc),
        new_pt(9, 12, TokenType::Hans),
    ];
    let pt = stack_merge(pt, insert_implicit_space_rule);
    assert_eq!(index_first_end_of_word(&pt), Some(6));

    let pt = vec![new_pt(0, 1, TokenType::Punc), new_pt(3, 3, TokenType::Punc)];
    let pt = stack_merge(pt, insert_implicit_space_rule);
    assert_eq!(index_first_end_of_word(&pt), Some(1));
}

#[test]
fn test_index_next_end_of_word() {
    let pt = vec![];
    assert_eq!(index_next_end_of_word(&pt, 0), None);

    let pt = vec![new_pt(0, 3, TokenType::Hans)];
    let pt = stack_merge(pt, insert_implicit_space_rule);
    assert_eq!(index_next_end_of_word(&pt, 0), Some(3));
    assert_eq!(index_next_end_of_word(&pt, 1), Some(3));
    assert_eq!(index_next_end_of_word(&pt, 2), Some(3));
    assert_eq!(index_next_end_of_word(&pt, 3), None);

    let pt = vec![new_pt(0, 3, TokenType::Hans), new_pt(6, 9, TokenType::Hans)];
    let pt = stack_merge(pt, insert_implicit_space_rule);
    assert_eq!(index_next_end_of_word(&pt, 0), Some(3));
    assert_eq!(index_next_end_of_word(&pt, 1), Some(3));
    assert_eq!(index_next_end_of_word(&pt, 3), Some(9));
    assert_eq!(index_next_end_of_word(&pt, 6), Some(9));
    assert_eq!(index_next_end_of_word(&pt, 7), Some(9));
    assert_eq!(index_next_end_of_word(&pt, 8), Some(9));
    assert_eq!(index_next_end_of_word(&pt, 9), None);

    let pt = vec![
        new_pt(0, 2, TokenType::Space),
        new_pt(3, 6, TokenType::Hans),
        new_pt(7, 7, TokenType::Punc),
    ];
    let pt = stack_merge(pt, insert_implicit_space_rule);
    assert_eq!(index_next_end_of_word(&pt, 0), Some(6));
    assert_eq!(index_next_end_of_word(&pt, 2), Some(6));
    assert_eq!(index_next_end_of_word(&pt, 3), Some(6));
    assert_eq!(index_next_end_of_word(&pt, 6), Some(7));
    assert_eq!(index_next_end_of_word(&pt, 7), None);

    let pt = vec![
        new_pt(0, 1, TokenType::Space),
        new_pt(2, 3, TokenType::Punc),
        new_pt(5, 6, TokenType::Hans),
        new_pt(8, 9, TokenType::Space),
    ];
    let pt = stack_merge(pt, insert_implicit_space_rule);
    assert_eq!(index_next_end_of_word(&pt, 0), Some(3));
    assert_eq!(index_next_end_of_word(&pt, 1), Some(3));
    assert_eq!(index_next_end_of_word(&pt, 2), Some(3));
    assert_eq!(index_next_end_of_word(&pt, 3), Some(6));
    assert_eq!(index_next_end_of_word(&pt, 5), Some(6));
    assert_eq!(index_next_end_of_word(&pt, 6), None);
    assert_eq!(index_next_end_of_word(&pt, 8), None);
    assert_eq!(index_next_end_of_word(&pt, 9), None);

    let pt = vec![new_pt(0, 0, TokenType::Punc), new_pt(3, 3, TokenType::Punc)];
    let pt = stack_merge(pt, insert_implicit_space_rule);
    assert_eq!(index_next_end_of_word(&pt, 0), Some(3));
    assert_eq!(index_next_end_of_word(&pt, 3), None);
}

#[test]
#[allow(non_snake_case)]
fn test_index_first_end_of_WORD() {
    let pt = vec![];
    assert_eq!(index_first_end_of_WORD(&pt), Some(0));

    let pt = vec![new_pt(0, 1, TokenType::Hans), new_pt(2, 3, TokenType::Hans)];
    let pt = stack_merge(pt, insert_implicit_space_rule);
    assert_eq!(index_first_end_of_WORD(&pt), Some(1));

    let pt = vec![
        new_pt(0, 2, TokenType::Space),
        new_pt(3, 6, TokenType::Punc),
        new_pt(9, 12, TokenType::Hans),
    ];
    let pt = stack_merge(pt, insert_implicit_space_rule);
    assert_eq!(index_first_end_of_WORD(&pt), Some(6));

    let pt = vec![
        new_pt(0, 2, TokenType::Space),
        new_pt(3, 6, TokenType::Hans),
        new_pt(9, 12, TokenType::Punc),
    ];
    let pt = stack_merge(pt, insert_implicit_space_rule);
    assert_eq!(index_first_end_of_WORD(&pt), Some(12));

    let pt = vec![new_pt(0, 1, TokenType::Punc), new_pt(3, 3, TokenType::Punc)];
    let pt = stack_merge(pt, insert_implicit_space_rule);
    assert_eq!(index_first_end_of_WORD(&pt), Some(1));
}

#[test]
#[allow(non_snake_case)]
fn test_index_next_end_of_WORD() {
    let pt = vec![];
    assert_eq!(index_next_end_of_WORD(&pt, 0), None);

    let pt = vec![new_pt(0, 3, TokenType::Hans)];
    let pt = stack_merge(pt, insert_implicit_space_rule);
    assert_eq!(index_next_end_of_WORD(&pt, 0), Some(3));
    assert_eq!(index_next_end_of_WORD(&pt, 1), Some(3));
    assert_eq!(index_next_end_of_WORD(&pt, 2), Some(3));
    assert_eq!(index_next_end_of_WORD(&pt, 3), None);

    let pt = vec![new_pt(0, 3, TokenType::Hans), new_pt(6, 9, TokenType::Hans)];
    let pt = stack_merge(pt, insert_implicit_space_rule);
    assert_eq!(index_next_end_of_WORD(&pt, 0), Some(3));
    assert_eq!(index_next_end_of_WORD(&pt, 1), Some(3));
    assert_eq!(index_next_end_of_WORD(&pt, 3), Some(9));
    assert_eq!(index_next_end_of_WORD(&pt, 6), Some(9));
    assert_eq!(index_next_end_of_WORD(&pt, 7), Some(9));
    assert_eq!(index_next_end_of_WORD(&pt, 8), Some(9));
    assert_eq!(index_next_end_of_WORD(&pt, 9), None);

    let pt = vec![
        new_pt(0, 2, TokenType::Space),
        new_pt(3, 6, TokenType::Hans),
        new_pt(7, 7, TokenType::Punc),
    ];
    let pt = stack_merge(pt, insert_implicit_space_rule);
    assert_eq!(index_next_end_of_WORD(&pt, 0), Some(7));
    assert_eq!(index_next_end_of_WORD(&pt, 2), Some(7));
    assert_eq!(index_next_end_of_WORD(&pt, 3), Some(7));
    assert_eq!(index_next_end_of_WORD(&pt, 6), Some(7));
    assert_eq!(index_next_end_of_WORD(&pt, 7), None);

    let pt = vec![
        new_pt(0, 1, TokenType::Space),
        new_pt(2, 3, TokenType::Punc),
        new_pt(5, 6, TokenType::Hans),
        new_pt(8, 9, TokenType::Space),
    ];
    let pt = stack_merge(pt, insert_implicit_space_rule);
    assert_eq!(index_next_end_of_WORD(&pt, 0), Some(3));
    assert_eq!(index_next_end_of_WORD(&pt, 1), Some(3));
    assert_eq!(index_next_end_of_WORD(&pt, 2), Some(3));
    assert_eq!(index_next_end_of_WORD(&pt, 3), Some(6));
    assert_eq!(index_next_end_of_WORD(&pt, 5), Some(6));
    assert_eq!(index_next_end_of_WORD(&pt, 6), None);
    assert_eq!(index_next_end_of_WORD(&pt, 8), None);
    assert_eq!(index_next_end_of_WORD(&pt, 9), None);

    let pt = vec![new_pt(0, 0, TokenType::Punc), new_pt(3, 3, TokenType::Punc)];
    let pt = stack_merge(pt, insert_implicit_space_rule);
    assert_eq!(index_next_end_of_WORD(&pt, 0), Some(3));
    assert_eq!(index_next_end_of_WORD(&pt, 3), None);
}
