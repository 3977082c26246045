//! Marking the boundaries that the words of a line leave implicit.
//!
//! Two Chinese words that touch have no blank between them, and punctuation
//! does not fuse with the word after it. Merging a line's tokens puts a
//! boundary mark, a `Space` that stands for no character, wherever two
//! tokens touch that are words of their own.

use vstd::prelude::*;
use crate::classify::TokenType;
use crate::token::ParsedToken;

verus! {

/// Whether a boundary mark goes between a token of kind `prev` and the token
/// of kind `cur` that follows it.
///
/// | prev \ cur | Hans | Punc | Space | NonWord |
/// |------------|------|------|-------|---------|
/// | Hans       | yes  | no   | no    | no      |
/// | Punc       | yes  | yes  | no    | yes     |
/// | Space      | no   | no   | no    | no      |
/// | NonWord    | no   | no   | no    | no      |
pub open spec fn needs_implicit_space(prev: TokenType, cur: TokenType) -> bool {
    match prev {
        TokenType::Hans => cur == TokenType::Hans,
        TokenType::Punc => cur != TokenType::Space,
        TokenType::Space => false,
        TokenType::NonWord => false,
    }
}

/// The tokens accepted so far, after `cur` comes in: a boundary mark at the
/// start of `cur` if the last accepted token calls for one, then `cur`.
pub open spec fn accept(accepted: Seq<ParsedToken>, cur: ParsedToken) -> Seq<ParsedToken> {
    if accepted.len() > 0 && needs_implicit_space(accepted.last().token_type, cur.token_type) {
        accepted.push(ParsedToken::mark(cur.start_byte_index)).push(cur)
    } else {
        accepted.push(cur)
    }
}

/// The tokens of a line with its implicit boundaries marked: the tokens
/// accepted one by one, from the first to the last.
pub open spec fn merged(tokens: Seq<ParsedToken>) -> Seq<ParsedToken>
    decreases tokens.len(),
{
    if tokens.len() == 0 {
        Seq::empty()
    } else {
        accept(merged(tokens.drop_last()), tokens.last())
    }
}

/// What `insert_implicit_space_rule` answers for a token and the one
/// accepted before it.
pub open spec fn rule_outcome(
    prev: Option<ParsedToken>,
    cur: ParsedToken,
    outcome: Result<Vec<ParsedToken>, (Option<ParsedToken>, ParsedToken)>,
) -> bool {
    match prev {
        None => outcome == Err::<Vec<ParsedToken>, _>((None::<ParsedToken>, cur)),
        Some(before) => if needs_implicit_space(before.token_type, cur.token_type) {
            &&& outcome is Ok
            &&& outcome->Ok_0@ == seq![before, ParsedToken::mark(cur.start_byte_index), cur]
        } else {
            outcome == Err::<Vec<ParsedToken>, _>((Some(before), cur))
        },
    }
}

/// Whether a boundary mark goes between a token of kind `prev` and the token
/// of kind `cur` that follows it.
pub fn need_implicit_space(prev: TokenType, cur: TokenType) -> (needed: bool)
    ensures
        needed == needs_implicit_space(prev, cur),
{
    match prev {
        TokenType::Hans => match cur {
            TokenType::Hans => true,
            _ => false,
        },
        TokenType::Punc => match cur {
            TokenType::Space => false,
            _ => true,
        },
        TokenType::Space => false,
        TokenType::NonWord => false,
    }
}

/// The rule that `stack_merge` follows to mark implicit boundaries. Given
/// the token accepted last, if any, and the token that comes in, it answers
/// `Ok` with the two tokens and a boundary mark between them where the table
/// calls for one, and gives the two back in `Err` where it does not.
pub fn insert_implicit_space_rule(
    parsed_token1: Option<ParsedToken>,
    parsed_token2: ParsedToken,
) -> (outcome: Result<Vec<ParsedToken>, (Option<ParsedToken>, ParsedToken)>)
    ensures
        rule_outcome(parsed_token1, parsed_token2, outcome),
{
    match parsed_token1 {
        None => Err((parsed_token1, parsed_token2)),
        Some(before) => {
            if need_implicit_space(before.token_type, parsed_token2.token_type) {
                let imp_space = ParsedToken::implicit_space(parsed_token2.start_byte_index);
                let mut replaced: Vec<ParsedToken> = Vec::new();
                replaced.push(before);
                replaced.push(imp_space);
                replaced.push(parsed_token2);
                assert(replaced@ =~= seq![
                    before,
                    ParsedToken::mark(parsed_token2.start_byte_index),
                    parsed_token2,
                ]);
                Ok(replaced)
            } else {
                Err((Some(before), parsed_token2))
            }
        },
    }
}

/// The element on top of a stack, if any.
pub open spec fn top<T>(stack: Seq<T>) -> Option<T> {
    if stack.len() > 0 {
        Some(stack.last())
    } else {
        None
    }
}

/// The stack without the element on top.
pub open spec fn below_top<T>(stack: Seq<T>) -> Seq<T> {
    if stack.len() > 0 {
        stack.drop_last()
    } else {
        stack
    }
}

/// The stack after a rule has answered `outcome` for the element popped off
/// `below` and the element that came in: what the rule made of the two, or
/// the two as the rule gave them back.
pub open spec fn pushed<T>(below: Seq<T>, outcome: Result<Vec<T>, (Option<T>, T)>) -> Seq<T> {
    match outcome {
        Ok(replaced) => below + replaced@,
        Err((None, item)) => below.push(item),
        Err((Some(popped), item)) => below.push(popped).push(item),
    }
}

/// Whether `stack` can come out of merging `elements` by `rule`: the
/// elements are taken from first to last, and each time the rule is asked
/// about the top of the stack and the element that comes in.
pub open spec fn stack_merged<T, F: Fn(Option<T>, T) -> Result<Vec<T>, (Option<T>, T)>>(
    rule: F,
    elements: Seq<T>,
    stack: Seq<T>,
) -> bool
    decreases elements.len(),
{
    if elements.len() == 0 {
        stack == Seq::<T>::empty()
    } else {
        exists|before: Seq<T>, outcome: Result<Vec<T>, (Option<T>, T)>|
            {
                &&& stack_merged(rule, elements.drop_last(), before)
                &&& call_ensures(rule, (top(before), elements.last()), outcome)
                &&& stack == #[trigger] pushed(below_top(before), outcome)
            }
    }
}

/// Merge and transform `elements` according to `rule_func` by pushing them
/// one after the other onto a stack.
///
/// `rule_func` takes the element on top of the stack (`None` when the stack
/// is empty) and the element that comes in, and returns either the elements
/// to push in place of the two, or an `Err` that gives the two back.
pub fn stack_merge<T, F>(elements: Vec<T>, rule_func: F) -> (stack: Vec<T>) where
    F: Fn(Option<T>, T) -> Result<Vec<T>, (Option<T>, T)>,

    requires
        forall|prev: Option<T>, cur: T| call_requires(rule_func, (prev, cur)),
    ensures
        stack_merged(rule_func, elements@, stack@),
{
    let ghost items = elements@;
    let mut stack: Vec<T> = Vec::new();
    for pt in it: elements.into_iter()
        invariant
            it.seq() == items,
            forall|prev: Option<T>, cur: T| call_requires(rule_func, (prev, cur)),
            stack_merged(rule_func, items.take(it.index() as int), stack@),
    {
        let ghost before = stack@;
        let ghost taken = items.take(it.index() + 1);
        assert(taken.drop_last() =~= items.take(it.index() as int));
        assert(taken.last() == pt);
        let popped = stack.pop();
        assert(popped == top(before));
        assert(stack@ == below_top(before));
        let outcome = rule_func(popped, pt);
        let ghost shown = outcome;
        match outcome {
            Err((None, pt)) => {
                stack.push(pt);
            },
            Err((Some(popped), pt)) => {
                stack.push(popped);
                stack.push(pt);
            },
            Ok(mut new_elements) => {
                stack.append(&mut new_elements);
            },
        }
        assert(stack@ == pushed(below_top(before), shown));
    }
    assert(items.take(items.len() as int) =~= items);
    stack
}

/// A stack merged by a rule that answers as `insert_implicit_space_rule`
/// does holds the tokens with their implicit boundaries marked.
pub proof fn lemma_stack_merged_by_rule<F>(
    rule: F,
    tokens: Seq<ParsedToken>,
    stack: Seq<ParsedToken>,
) where F: Fn(Option<ParsedToken>, ParsedToken) -> Result<
        Vec<ParsedToken>,
        (Option<ParsedToken>, ParsedToken),
    >
    requires
        forall|
            prev: Option<ParsedToken>,
            cur: ParsedToken,
            outcome: Result<Vec<ParsedToken>, (Option<ParsedToken>, ParsedToken)>,
        | #[trigger]
            call_ensures(rule, (prev, cur), outcome) ==> rule_outcome(prev, cur, outcome),
        stack_merged(rule, tokens, stack),
    ensures
        stack == merged(tokens),
    decreases tokens.len(),
{
    if tokens.len() > 0 {
        let (before, outcome) = choose|
            before: Seq<ParsedToken>,
            outcome: Result<Vec<ParsedToken>, (Option<ParsedToken>, ParsedToken)>,
        |
            {
                &&& stack_merged(rule, tokens.drop_last(), before)
                &&& call_ensures(rule, (top(before), tokens.last()), outcome)
                &&& stack == #[trigger] pushed(below_top(before), outcome)
            };
        lemma_stack_merged_by_rule(rule, tokens.drop_last(), before);
        assert(rule_outcome(top(before), tokens.last(), outcome));
        assert(stack =~= accept(before, tokens.last()));
    }
}

/// Marks the implicit boundaries of a line's tokens.
pub fn merge_tokens(tokens: Vec<ParsedToken>) -> (marked: Vec<ParsedToken>)
    ensures
        marked@ == merged(tokens@),
{
    let marked = stack_merge(tokens, insert_implicit_space_rule);
    proof {
        lemma_stack_merged_by_rule(insert_implicit_space_rule, tokens@, marked@);
    }
    marked
}

/// Whether no two neighbours in `tokens` call for a boundary mark between
/// them.
pub open spec fn settled(tokens: Seq<ParsedToken>) -> bool {
    forall|j: int|
        0 < j < tokens.len() ==> !needs_implicit_space(
            (#[trigger] tokens[j - 1]).token_type,
            tokens[j].token_type,
        )
}

/// Whether no token of `tokens` is a boundary mark.
pub open spec fn unmarked(tokens: Seq<ParsedToken>) -> bool {
    forall|i: int| 0 <= i < tokens.len() ==> !(#[trigger] tokens[i]).zero_width
}

/// The tokens of `tokens` that are not of kind `Space`, in their order.
pub open spec fn non_spaces(tokens: Seq<ParsedToken>) -> Seq<ParsedToken> {
    tokens.filter(|token: ParsedToken| !token.is_space())
}

/// Merging keeps what was merged before the last token came in, and the
/// last token stays last.
pub proof fn lemma_merged_grows(tokens: Seq<ParsedToken>)
    requires
        tokens.len() > 0,
    ensures
        merged(tokens).len() > merged(tokens.drop_last()).len(),
        merged(tokens).take(merged(tokens.drop_last()).len() as int) == merged(
            tokens.drop_last(),
        ),
        merged(tokens).last() == tokens.last(),
        merged(tokens).len() >= tokens.len(),
        merged(tokens)[0] == tokens[0],
    decreases tokens.len(),
{
    let before = merged(tokens.drop_last());
    assert(merged(tokens).take(before.len() as int) =~= before);
    if tokens.len() > 1 {
        lemma_merged_grows(tokens.drop_last());
    }
}

/// Tokens that call for no boundary mark are left as they are.
pub proof fn lemma_settled_unchanged(tokens: Seq<ParsedToken>)
    requires
        settled(tokens),
    ensures
        merged(tokens) == tokens,
    decreases tokens.len(),
{
    if tokens.len() > 0 {
        let rest = tokens.drop_last();
        assert forall|j: int| 0 < j < rest.len() implies !needs_implicit_space(
            (#[trigger] rest[j - 1]).token_type,
            rest[j].token_type,
        ) by {
            assert(rest[j - 1] == tokens[j - 1]);
        }
        lemma_settled_unchanged(rest);
        if rest.len() > 0 {
            assert(rest.last() == tokens[tokens.len() - 2]);
        }
        assert(merged(tokens) =~= tokens);
    }
}

/// Once the implicit boundaries are marked, no two neighbours call for
/// another mark.
pub proof fn lemma_merged_settled(tokens: Seq<ParsedToken>)
    ensures
        settled(merged(tokens)),
    decreases tokens.len(),
{
    if tokens.len() > 0 {
        let before = merged(tokens.drop_last());
        let after = merged(tokens);
        lemma_merged_settled(tokens.drop_last());
        assert forall|j: int| 0 < j < after.len() implies !needs_implicit_space(
            (#[trigger] after[j - 1]).token_type,
            after[j].token_type,
        ) by {
            if j < before.len() {
                assert(after[j - 1] == before[j - 1]);
                assert(after[j] == before[j]);
            }
        }
    }
}

/// Marking the implicit boundaries twice gives the same as marking them
/// once.
pub proof fn lemma_merge_idempotent(tokens: Seq<ParsedToken>)
    ensures
        merged(merged(tokens)) == merged(tokens),
{
    lemma_merged_settled(tokens);
    lemma_settled_unchanged(merged(tokens));
}

/// Marking the implicit boundaries keeps the tokens that are not `Space`,
/// and keeps them in their order.
pub proof fn lemma_merge_preserves_non_spaces(tokens: Seq<ParsedToken>)
    ensures
        non_spaces(merged(tokens)) == non_spaces(tokens),
    decreases tokens.len(),
{
    reveal(Seq::filter);
    let keep = |token: ParsedToken| !token.is_space();
    if tokens.len() > 0 {
        let rest = tokens.drop_last();
        let last = tokens.last();
        let before = merged(rest);
        lemma_merge_preserves_non_spaces(rest);
        if before.len() > 0 && needs_implicit_space(before.last().token_type, last.token_type) {
            let mark = ParsedToken::mark(last.start_byte_index);
            let marked = before.push(mark);
            assert(marked.drop_last() =~= before);
            assert(marked.filter(keep) == before.filter(keep));
            assert(marked.push(last).drop_last() =~= marked);
        } else {
            assert(before.push(last).drop_last() =~= before);
        }
    }
}

/// Every boundary mark that merging puts in stands between two tokens for
/// which the table calls for one: the token before it is `Hans` or `Punc`,
/// never `Space` or `NonWord`; the token after it is never `Space`, and is
/// `NonWord` only after `Punc`. The mark sits where the token after it
/// starts.
pub proof fn lemma_marks_follow_table(tokens: Seq<ParsedToken>, j: int)
    requires
        unmarked(tokens),
        0 <= j < merged(tokens).len(),
        merged(tokens)[j].zero_width,
    ensures
        0 < j < merged(tokens).len() - 1,
        !merged(tokens)[j - 1].zero_width,
        !merged(tokens)[j + 1].zero_width,
        merged(tokens)[j] == ParsedToken::mark(merged(tokens)[j + 1].start_byte_index),
        needs_implicit_space(merged(tokens)[j - 1].token_type, merged(tokens)[j + 1].token_type),
        merged(tokens)[j - 1].token_type != TokenType::Space,
        merged(tokens)[j - 1].token_type != TokenType::NonWord,
        merged(tokens)[j + 1].token_type != TokenType::Space,
        merged(tokens)[j + 1].token_type == TokenType::NonWord ==> merged(tokens)[j
            - 1].token_type == TokenType::Punc,
    decreases tokens.len(),
{
    if tokens.len() > 0 {
        let rest = tokens.drop_last();
        let before = merged(rest);
        let after = merged(tokens);
        lemma_merged_grows(tokens);
        assert(after.last() == tokens.last());
        assert(!tokens[tokens.len() - 1].zero_width);
        assert forall|i: int| 0 <= i < rest.len() implies !(#[trigger] rest[i]).zero_width by {
            assert(rest[i] == tokens[i]);
        }
        if j < before.len() {
            assert(after[j] == before[j]);
            lemma_marks_follow_table(rest, j);
            assert(after[j - 1] == before[j - 1]);
            assert(after[j + 1] == before[j + 1]);
        } else {
            lemma_merged_grows(rest);
            assert(before.last() == rest.last());
            assert(!rest[rest.len() - 1].zero_width);
        }
    }
}

} // verus!
