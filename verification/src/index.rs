//! Where the words of one line start and end.
//!
//! All functions here work on the tokens of a line whose implicit boundaries
//! are marked. There are two families. For a *word*, every token that is not
//! `Space` is a word of its own. For a *WORD*, a run of tokens that are not
//! `Space` is one unit, and only `Space` parts two units.
//!
//! Each function answers with a byte offset, or `None` when the line holds
//! no such boundary.

use vstd::prelude::*;
use crate::token::ParsedToken;

verus! {

/// The first position at or after `from` whose token is not `Space`; the
/// length of the line if there is none.
pub open spec fn skip_spaces(tokens: Seq<ParsedToken>, from: int) -> int
    decreases tokens.len() - from,
{
    if 0 <= from < tokens.len() && tokens[from].is_space() {
        skip_spaces(tokens, from + 1)
    } else {
        from
    }
}

/// The first position at or after `from` whose token is `Space`; the length
/// of the line if there is none.
pub open spec fn skip_words(tokens: Seq<ParsedToken>, from: int) -> int
    decreases tokens.len() - from,
{
    if 0 <= from < tokens.len() && !tokens[from].is_space() {
        skip_words(tokens, from + 1)
    } else {
        from
    }
}

/// The tokens before `until` without the `Space` tokens at their end: the
/// number of tokens that are left.
pub open spec fn skip_spaces_back(tokens: Seq<ParsedToken>, until: int) -> int
    decreases until,
{
    if 0 < until <= tokens.len() && tokens[until - 1].is_space() {
        skip_spaces_back(tokens, until - 1)
    } else {
        until
    }
}

/// The tokens before `until` without the tokens at their end that are not
/// `Space`: the number of tokens that are left.
pub open spec fn skip_words_back(tokens: Seq<ParsedToken>, until: int) -> int
    decreases until,
{
    if 0 < until <= tokens.len() && !tokens[until - 1].is_space() {
        skip_words_back(tokens, until - 1)
    } else {
        until
    }
}

/// Whether some token starts at or before `col`.
pub open spec fn covered(tokens: Seq<ParsedToken>, col: int) -> bool {
    exists|i: int| 0 <= i < tokens.len() && (#[trigger] tokens[i]).start_byte_index <= col
}

/// The last of the first `until` tokens that starts at or before `col`, or
/// `-1` if none does.
pub open spec fn last_starting_by(tokens: Seq<ParsedToken>, col: int, until: int) -> int
    decreases until,
{
    if until <= 0 {
        -1
    } else if tokens[until - 1].start_byte_index <= col {
        until - 1
    } else {
        last_starting_by(tokens, col, until - 1)
    }
}

/// The token on which byte `col` lies: the last token that starts at or
/// before `col`. Taking the last one puts `col` on the token after a
/// boundary mark, which starts where the mark sits.
pub open spec fn token_index(tokens: Seq<ParsedToken>, col: int) -> int {
    last_starting_by(tokens, col, tokens.len() as int)
}

/// `last_starting_by` finds the last token that starts at or before `col`.
pub proof fn lemma_last_starting_by(tokens: Seq<ParsedToken>, col: int, until: int)
    requires
        0 <= until <= tokens.len(),
    ensures
        -1 <= last_starting_by(tokens, col, until) < until,
        last_starting_by(tokens, col, until) >= 0 ==> tokens[last_starting_by(
            tokens,
            col,
            until,
        )].start_byte_index <= col,
        forall|j: int|
            last_starting_by(tokens, col, until) < j < until ==> (
            #[trigger] tokens[j]).start_byte_index > col,
    decreases until,
{
    if until > 0 && tokens[until - 1].start_byte_index > col {
        lemma_last_starting_by(tokens, col, until - 1);
    }
}

/// On a line that covers `col`, `token_index` is the position of the last
/// token that starts at or before `col`.
pub proof fn lemma_token_index(tokens: Seq<ParsedToken>, col: int)
    requires
        covered(tokens, col),
    ensures
        0 <= token_index(tokens, col) < tokens.len(),
        tokens[token_index(tokens, col)].start_byte_index <= col,
        forall|j: int|
            token_index(tokens, col) < j < tokens.len() ==> (
            #[trigger] tokens[j]).start_byte_index > col,
{
    lemma_last_starting_by(tokens, col, tokens.len() as int);
}

/// `skip_spaces` passes `Space` tokens only and stops at a token that is
/// not `Space`, or at the end of the line.
pub proof fn lemma_skip_spaces(tokens: Seq<ParsedToken>, from: int)
    requires
        0 <= from <= tokens.len(),
    ensures
        from <= skip_spaces(tokens, from) <= tokens.len(),
        forall|k: int| from <= k < skip_spaces(tokens, from) ==> (#[trigger] tokens[k]).is_space(),
        skip_spaces(tokens, from) < tokens.len() ==> !tokens[skip_spaces(tokens, from)].is_space(),
    decreases tokens.len() - from,
{
    if from < tokens.len() && tokens[from].is_space() {
        lemma_skip_spaces(tokens, from + 1);
    }
}

/// `skip_words` passes tokens that are not `Space` only and stops at a
/// `Space`, or at the end of the line.
pub proof fn lemma_skip_words(tokens: Seq<ParsedToken>, from: int)
    requires
        0 <= from <= tokens.len(),
    ensures
        from <= skip_words(tokens, from) <= tokens.len(),
        forall|k: int| from <= k < skip_words(tokens, from) ==> !(#[trigger] tokens[k]).is_space(),
        skip_words(tokens, from) < tokens.len() ==> tokens[skip_words(tokens, from)].is_space(),
    decreases tokens.len() - from,
{
    if from < tokens.len() && !tokens[from].is_space() {
        lemma_skip_words(tokens, from + 1);
    }
}

/// `skip_spaces_back` passes `Space` tokens only and stops behind a token
/// that is not `Space`, or at the start of the line.
pub proof fn lemma_skip_spaces_back(tokens: Seq<ParsedToken>, until: int)
    requires
        0 <= until <= tokens.len(),
    ensures
        0 <= skip_spaces_back(tokens, until) <= until,
        forall|k: int|
            skip_spaces_back(tokens, until) <= k < until ==> (#[trigger] tokens[k]).is_space(),
        skip_spaces_back(tokens, until) > 0 ==> !tokens[skip_spaces_back(tokens, until)
            - 1].is_space(),
    decreases until,
{
    if until > 0 && tokens[until - 1].is_space() {
        lemma_skip_spaces_back(tokens, until - 1);
    }
}

/// `skip_words_back` passes tokens that are not `Space` only and stops
/// behind a `Space`, or at the start of the line.
pub proof fn lemma_skip_words_back(tokens: Seq<ParsedToken>, until: int)
    requires
        0 <= until <= tokens.len(),
    ensures
        0 <= skip_words_back(tokens, until) <= until,
        forall|k: int|
            skip_words_back(tokens, until) <= k < until ==> !(#[trigger] tokens[k]).is_space(),
        skip_words_back(tokens, until) > 0 ==> tokens[skip_words_back(tokens, until)
            - 1].is_space(),
    decreases until,
{
    if until > 0 && !tokens[until - 1].is_space() {
        lemma_skip_words_back(tokens, until - 1);
    }
}

fn find_non_space(tokens: &[ParsedToken], from: usize) -> (at: usize)
    requires
        from <= tokens@.len(),
    ensures
        at == skip_spaces(tokens@, from as int),
        from <= at <= tokens@.len(),
        forall|k: int| from <= k < at ==> (#[trigger] tokens@[k]).is_space(),
        at < tokens@.len() ==> !tokens@[at as int].is_space(),
{
    proof {
        lemma_skip_spaces(tokens@, from as int);
    }
    let mut at: usize = from;
    while at < tokens.len() && tokens[at].token_type.is_space()
        invariant
            from <= at <= tokens@.len(),
            skip_spaces(tokens@, at as int) == skip_spaces(tokens@, from as int),
        decreases tokens@.len() - at,
    {
        at = at + 1;
    }
    at
}

fn find_space(tokens: &[ParsedToken], from: usize) -> (at: usize)
    requires
        from <= tokens@.len(),
    ensures
        at == skip_words(tokens@, from as int),
        from <= at <= tokens@.len(),
        forall|k: int| from <= k < at ==> !(#[trigger] tokens@[k]).is_space(),
        at < tokens@.len() ==> tokens@[at as int].is_space(),
{
    proof {
        lemma_skip_words(tokens@, from as int);
    }
    let mut at: usize = from;
    while at < tokens.len() && !tokens[at].token_type.is_space()
        invariant
            from <= at <= tokens@.len(),
            skip_words(tokens@, at as int) == skip_words(tokens@, from as int),
        decreases tokens@.len() - at,
    {
        at = at + 1;
    }
    at
}

fn rfind_non_space(tokens: &[ParsedToken], until: usize) -> (left: usize)
    requires
        until <= tokens@.len(),
    ensures
        left == skip_spaces_back(tokens@, until as int),
        left <= until,
        forall|k: int| left <= k < until ==> (#[trigger] tokens@[k]).is_space(),
        left > 0 ==> !tokens@[left - 1].is_space(),
{
    proof {
        lemma_skip_spaces_back(tokens@, until as int);
    }
    let mut left: usize = until;
    while left > 0 && tokens[left - 1].token_type.is_space()
        invariant
            left <= until <= tokens@.len(),
            skip_spaces_back(tokens@, left as int) == skip_spaces_back(tokens@, until as int),
        decreases left,
    {
        left = left - 1;
    }
    left
}

fn rfind_space(tokens: &[ParsedToken], until: usize) -> (left: usize)
    requires
        until <= tokens@.len(),
    ensures
        left == skip_words_back(tokens@, until as int),
        left <= until,
        forall|k: int| left <= k < until ==> !(#[trigger] tokens@[k]).is_space(),
        left > 0 ==> tokens@[left - 1].is_space(),
{
    proof {
        lemma_skip_words_back(tokens@, until as int);
    }
    let mut left: usize = until;
    while left > 0 && !tokens[left - 1].token_type.is_space()
        invariant
            left <= until <= tokens@.len(),
            skip_words_back(tokens@, left as int) == skip_words_back(tokens@, until as int),
        decreases left,
    {
        left = left - 1;
    }
    left
}

fn count_starting_by(tokens: &[ParsedToken], bi: usize) -> (until: usize)
    ensures
        until <= tokens@.len(),
        until - 1 == token_index(tokens@, bi as int),
        until > 0 <==> covered(tokens@, bi as int),
{
    let mut until: usize = tokens.len();
    while until > 0 && tokens[until - 1].start_byte_index > bi
        invariant
            until <= tokens@.len(),
            last_starting_by(tokens@, bi as int, until as int) == token_index(tokens@, bi as int),
            forall|j: int|
                until <= j < tokens@.len() ==> (#[trigger] tokens@[j]).start_byte_index > bi,
        decreases until,
    {
        until = until - 1;
    }
    until
}

/// The position of the token on which byte `bi` lies, or `None` if no token
/// starts at or before `bi`.
pub fn find_token(parsed_tokens: &[ParsedToken], bi: usize) -> (found: Option<usize>)
    ensures
        found is Some <==> covered(parsed_tokens@, bi as int),
        found matches Some(ti) ==> ti == token_index(parsed_tokens@, bi as int),
{
    let until: usize = count_starting_by(parsed_tokens, bi);
    if until > 0 {
        Some(until - 1)
    } else {
        None
    }
}

/// Return the token index at which the byte index `bi` lies. The line must
/// hold a token that starts at or before `bi`; a line of text does, since
/// its first token starts at byte 0.
pub fn index_tokens(parsed_tokens: &[ParsedToken], bi: usize) -> (ti: usize)
    requires
        covered(parsed_tokens@, bi as int),
    ensures
        ti == token_index(parsed_tokens@, bi as int),
        ti < parsed_tokens@.len(),
        parsed_tokens@[ti as int].start_byte_index <= bi,
        forall|j: int|
            ti < j < parsed_tokens@.len() ==> (#[trigger] parsed_tokens@[j]).start_byte_index
                > bi,
{
    proof {
        lemma_token_index(parsed_tokens@, bi as int);
    }
    count_starting_by(parsed_tokens, bi) - 1
}

/// Where a search towards the start of the line begins when it looks for
/// the start of a word before `col`: it takes in the token under `col`
/// unless `col` stands on that token's start, in which case the token's own
/// start is no step back.
pub open spec fn limit_before(tokens: Seq<ParsedToken>, col: int) -> int {
    let ti = token_index(tokens, col);
    if col == tokens[ti].start_byte_index {
        ti
    } else {
        ti + 1
    }
}

/// Where a search towards the end of the line begins when it looks for the
/// end of a word after `col`: at the token under `col`, unless `col` stands
/// on that token's end, in which case the token's own end is no step
/// forward.
pub open spec fn start_after(tokens: Seq<ParsedToken>, col: int) -> int {
    let ti = token_index(tokens, col);
    if tokens[ti].ends_at(col) {
        ti + 1
    } else {
        ti
    }
}

/// The start of the token just before position `until`, if there is one.
pub open spec fn start_before(tokens: Seq<ParsedToken>, until: int) -> Option<usize> {
    if 0 < until <= tokens.len() {
        Some(tokens[until - 1].start_byte_index)
    } else {
        None
    }
}

/// The end of the token just before position `until`, if there is one.
pub open spec fn end_before(tokens: Seq<ParsedToken>, until: int) -> Option<usize> {
    if 0 < until <= tokens.len() {
        Some(tokens[until - 1].end_byte_index)
    } else {
        None
    }
}

/// The start of the token at position `at`, if there is one.
pub open spec fn start_at(tokens: Seq<ParsedToken>, at: int) -> Option<usize> {
    if 0 <= at < tokens.len() {
        Some(tokens[at].start_byte_index)
    } else {
        None
    }
}

/// The end of the token at position `at`, if there is one.
pub open spec fn end_at(tokens: Seq<ParsedToken>, at: int) -> Option<usize> {
    if 0 <= at < tokens.len() {
        Some(tokens[at].end_byte_index)
    } else {
        None
    }
}

/// The start of the unit that takes up positions `from` to `until`, if it
/// holds a token.
pub open spec fn start_of_run(tokens: Seq<ParsedToken>, from: int, until: int) -> Option<usize> {
    if from < until {
        start_at(tokens, from)
    } else {
        None
    }
}

/// The end of the unit that takes up positions `from` to `until`, if it
/// holds a token.
pub open spec fn end_of_run(tokens: Seq<ParsedToken>, from: int, until: int) -> Option<usize> {
    if from < until {
        end_before(tokens, until)
    } else {
        None
    }
}

/// The start of the last word of the line; 0 on a line without tokens.
#[allow(non_snake_case)]
pub open spec fn last_start_of_word(tokens: Seq<ParsedToken>) -> Option<usize> {
    if tokens.len() == 0 {
        Some(0)
    } else {
        start_before(tokens, skip_spaces_back(tokens, tokens.len() as int))
    }
}

/// The start of the nearest word that starts before `col`.
#[allow(non_snake_case)]
pub open spec fn prev_start_of_word(tokens: Seq<ParsedToken>, col: int) -> Option<usize> {
    if tokens.len() == 0 {
        None
    } else {
        start_before(tokens, skip_spaces_back(tokens, limit_before(tokens, col)))
    }
}

/// The start of the last WORD of the line; 0 on a line without tokens.
#[allow(non_snake_case)]
pub open spec fn last_start_of_WORD(tokens: Seq<ParsedToken>) -> Option<usize> {
    if tokens.len() == 0 {
        Some(0)
    } else {
        let until = skip_spaces_back(tokens, tokens.len() as int);
        start_of_run(tokens, skip_words_back(tokens, until), until)
    }
}

/// The start of the nearest WORD that starts before `col`.
#[allow(non_snake_case)]
pub open spec fn prev_start_of_WORD(tokens: Seq<ParsedToken>, col: int) -> Option<usize> {
    if tokens.len() == 0 {
        None
    } else {
        let until = skip_spaces_back(tokens, limit_before(tokens, col));
        start_of_run(tokens, skip_words_back(tokens, until), until)
    }
}

/// The end of the last word of the line; 0 on a line without tokens.
#[allow(non_snake_case)]
pub open spec fn last_end_of_word(tokens: Seq<ParsedToken>) -> Option<usize> {
    if tokens.len() == 0 {
        Some(0)
    } else {
        end_before(tokens, skip_spaces_back(tokens, tokens.len() as int))
    }
}

/// The end of the nearest word that lies before the token under `col`.
#[allow(non_snake_case)]
pub open spec fn prev_end_of_word(tokens: Seq<ParsedToken>, col: int) -> Option<usize> {
    if tokens.len() == 0 {
        None
    } else {
        end_before(tokens, skip_spaces_back(tokens, token_index(tokens, col)))
    }
}

/// The end of the last WORD of the line, which is the end of its last
/// word; 0 on a line without tokens.
#[allow(non_snake_case)]
pub open spec fn last_end_of_WORD(tokens: Seq<ParsedToken>) -> Option<usize> {
    if tokens.len() == 0 {
        Some(0)
    } else {
        end_before(tokens, skip_spaces_back(tokens, tokens.len() as int))
    }
}

/// The end of the nearest WORD that lies before the WORD under `col`: the
/// one found by going back over the rest of the unit under `col`, if `col`
/// is on one, and then over the `Space` before it.
#[allow(non_snake_case)]
pub open spec fn prev_end_of_WORD(tokens: Seq<ParsedToken>, col: int) -> Option<usize> {
    if tokens.len() == 0 {
        None
    } else {
        let unit = skip_words_back(tokens, token_index(tokens, col) + 1);
        end_before(tokens, skip_spaces_back(tokens, unit))
    }
}

/// The start of the first word of the line; 0 on a line without tokens.
#[allow(non_snake_case)]
pub open spec fn first_start_of_word(tokens: Seq<ParsedToken>) -> Option<usize> {
    if tokens.len() == 0 {
        Some(0)
    } else {
        start_at(tokens, skip_spaces(tokens, 0))
    }
}

/// The start of the nearest word that lies after the token under `col`.
#[allow(non_snake_case)]
pub open spec fn next_start_of_word(tokens: Seq<ParsedToken>, col: int) -> Option<usize> {
    if tokens.len() == 0 {
        None
    } else {
        start_at(tokens, skip_spaces(tokens, token_index(tokens, col) + 1))
    }
}

/// The start of the first WORD of the line, which is the start of its
/// first word; 0 on a line without tokens.
#[allow(non_snake_case)]
pub open spec fn first_start_of_WORD(tokens: Seq<ParsedToken>) -> Option<usize> {
    if tokens.len() == 0 {
        Some(0)
    } else {
        start_at(tokens, skip_spaces(tokens, 0))
    }
}

/// The start of the nearest WORD that lies after the WORD under `col`: the
/// one found by going on over the rest of the unit under `col`, if `col` is
/// on one, and then over the `Space` after it.
#[allow(non_snake_case)]
pub open spec fn next_start_of_WORD(tokens: Seq<ParsedToken>, col: int) -> Option<usize> {
    if tokens.len() == 0 {
        None
    } else {
        let unit = skip_words(tokens, token_index(tokens, col));
        start_at(tokens, skip_spaces(tokens, unit))
    }
}

/// The end of the first word of the line; 0 on a line without tokens.
#[allow(non_snake_case)]
pub open spec fn first_end_of_word(tokens: Seq<ParsedToken>) -> Option<usize> {
    if tokens.len() == 0 {
        Some(0)
    } else {
        end_at(tokens, skip_spaces(tokens, 0))
    }
}

/// The end of the nearest word that ends after `col`.
#[allow(non_snake_case)]
pub open spec fn next_end_of_word(tokens: Seq<ParsedToken>, col: int) -> Option<usize> {
    if tokens.len() == 0 {
        None
    } else {
        end_at(tokens, skip_spaces(tokens, start_after(tokens, col)))
    }
}

/// The end of the first WORD of the line; 0 on a line without tokens.
#[allow(non_snake_case)]
pub open spec fn first_end_of_WORD(tokens: Seq<ParsedToken>) -> Option<usize> {
    if tokens.len() == 0 {
        Some(0)
    } else {
        let from = skip_spaces(tokens, 0);
        end_of_run(tokens, from, skip_words(tokens, from))
    }
}

/// The end of the nearest WORD that ends after `col`.
#[allow(non_snake_case)]
pub open spec fn next_end_of_WORD(tokens: Seq<ParsedToken>, col: int) -> Option<usize> {
    if tokens.len() == 0 {
        None
    } else {
        let from = skip_spaces(tokens, start_after(tokens, col));
        end_of_run(tokens, from, skip_words(tokens, from))
    }
}

fn start_of(tokens: &[ParsedToken], at: usize) -> (start: Option<usize>)
    requires
        at <= tokens@.len(),
    ensures
        start == start_at(tokens@, at as int),
{
    if at < tokens.len() {
        Some(tokens[at].start_byte_index)
    } else {
        None
    }
}

fn end_of(tokens: &[ParsedToken], at: usize) -> (end: Option<usize>)
    requires
        at <= tokens@.len(),
    ensures
        end == end_at(tokens@, at as int),
{
    if at < tokens.len() {
        Some(tokens[at].end_byte_index)
    } else {
        None
    }
}

fn start_of_previous(tokens: &[ParsedToken], until: usize) -> (start: Option<usize>)
    requires
        until <= tokens@.len(),
    ensures
        start == start_before(tokens@, until as int),
{
    if until > 0 {
        Some(tokens[until - 1].start_byte_index)
    } else {
        None
    }
}

fn end_of_previous(tokens: &[ParsedToken], until: usize) -> (end: Option<usize>)
    requires
        until <= tokens@.len(),
    ensures
        end == end_before(tokens@, until as int),
{
    if until > 0 {
        Some(tokens[until - 1].end_byte_index)
    } else {
        None
    }
}

fn limit_before_col(tokens: &[ParsedToken], col: usize) -> (limit: usize)
    requires
        covered(tokens@, col as int),
    ensures
        limit == limit_before(tokens@, col as int),
        limit <= tokens@.len(),
{
    let ti: usize = index_tokens(tokens, col);
    if col == tokens[ti].start_byte_index {
        ti
    } else {
        ti + 1
    }
}

fn start_after_col(tokens: &[ParsedToken], col: usize) -> (from: usize)
    requires
        covered(tokens@, col as int),
    ensures
        from == start_after(tokens@, col as int),
        from <= tokens@.len(),
{
    let ti: usize = index_tokens(tokens, col);
    if !tokens[ti].zero_width && col == tokens[ti].end_byte_index {
        ti + 1
    } else {
        ti
    }
}

/// The start of the last word of the line; 0 on a line without tokens.
pub fn index_last_start_of_word(parsed_tokens: &[ParsedToken]) -> (found: Option<usize>)
    ensures
        found == last_start_of_word(parsed_tokens@),
{
    if parsed_tokens.len() == 0 {
        Some(0)
    } else {
        let until: usize = rfind_non_space(parsed_tokens, parsed_tokens.len());
        start_of_previous(parsed_tokens, until)
    }
}

/// The start of the nearest word that starts before `col`. A caret in the
/// middle of a word goes to the start of that word; a caret on the start of
/// a word goes to the word before.
pub fn index_prev_start_of_word(parsed_tokens: &[ParsedToken], col: usize) -> (found: Option<
    usize,
>)
    requires
        parsed_tokens@.len() == 0 || covered(parsed_tokens@, col as int),
    ensures
        found == prev_start_of_word(parsed_tokens@, col as int),
{
    if parsed_tokens.len() == 0 {
        None
    } else {
        let take_first: usize = limit_before_col(parsed_tokens, col);
        let until: usize = rfind_non_space(parsed_tokens, take_first);
        start_of_previous(parsed_tokens, until)
    }
}

/// The start of the last WORD of the line; 0 on a line without tokens.
#[allow(non_snake_case)]
pub fn index_last_start_of_WORD(parsed_tokens: &[ParsedToken]) -> (found: Option<usize>)
    ensures
        found == last_start_of_WORD(parsed_tokens@),
{
    if parsed_tokens.len() == 0 {
        Some(0)
    } else {
        let until: usize = rfind_non_space(parsed_tokens, parsed_tokens.len());
        let from: usize = rfind_space(parsed_tokens, until);
        if from < until {
            start_of(parsed_tokens, from)
        } else {
            None
        }
    }
}

/// The start of the nearest WORD that starts before `col`.
#[allow(non_snake_case)]
pub fn index_prev_start_of_WORD(parsed_tokens: &[ParsedToken], col: usize) -> (found: Option<
    usize,
>)
    requires
        parsed_tokens@.len() == 0 || covered(parsed_tokens@, col as int),
    ensures
        found == prev_start_of_WORD(parsed_tokens@, col as int),
{
    if parsed_tokens.len() == 0 {
        None
    } else {
        let take_first: usize = limit_before_col(parsed_tokens, col);
        let until: usize = rfind_non_space(parsed_tokens, take_first);
        let from: usize = rfind_space(parsed_tokens, until);
        if from < until {
            start_of(parsed_tokens, from)
        } else {
            None
        }
    }
}

/// The end of the last word of the line; 0 on a line without tokens.
pub fn index_last_end_of_word(parsed_tokens: &[ParsedToken]) -> (found: Option<usize>)
    ensures
        found == last_end_of_word(parsed_tokens@),
{
    if parsed_tokens.len() == 0 {
        Some(0)
    } else {
        let until: usize = rfind_non_space(parsed_tokens, parsed_tokens.len());
        end_of_previous(parsed_tokens, until)
    }
}

/// The end of the nearest word that lies before the token under `col`.
pub fn index_prev_end_of_word(parsed_tokens: &[ParsedToken], col: usize) -> (found: Option<usize>)
    requires
        parsed_tokens@.len() == 0 || covered(parsed_tokens@, col as int),
    ensures
        found == prev_end_of_word(parsed_tokens@, col as int),
{
    if parsed_tokens.len() == 0 {
        None
    } else {
        let take_first: usize = index_tokens(parsed_tokens, col);
        let until: usize = rfind_non_space(parsed_tokens, take_first);
        end_of_previous(parsed_tokens, until)
    }
}

/// The end of the last WORD of the line, which is the end of its last word;
/// 0 on a line without tokens.
#[allow(non_snake_case)]
pub fn index_last_end_of_WORD(parsed_tokens: &[ParsedToken]) -> (found: Option<usize>)
    ensures
        found == last_end_of_WORD(parsed_tokens@),
{
    index_last_end_of_word(parsed_tokens)
}

/// The end of the nearest WORD that lies before the WORD under `col`.
#[allow(non_snake_case)]
pub fn index_prev_end_of_WORD(parsed_tokens: &[ParsedToken], col: usize) -> (found: Option<usize>)
    requires
        parsed_tokens@.len() == 0 || covered(parsed_tokens@, col as int),
    ensures
        found == prev_end_of_WORD(parsed_tokens@, col as int),
{
    if parsed_tokens.len() == 0 {
        None
    } else {
        let ti: usize = index_tokens(parsed_tokens, col);
        let unit: usize = rfind_space(parsed_tokens, ti + 1);
        let until: usize = rfind_non_space(parsed_tokens, unit);
        end_of_previous(parsed_tokens, until)
    }
}

/// The start of the first word of the line; 0 on a line without tokens.
pub fn index_first_start_of_word(parsed_tokens: &[ParsedToken]) -> (found: Option<usize>)
    ensures
        found == first_start_of_word(parsed_tokens@),
{
    if parsed_tokens.len() == 0 {
        Some(0)
    } else {
        let at: usize = find_non_space(parsed_tokens, 0);
        start_of(parsed_tokens, at)
    }
}

/// The start of the nearest word that lies after the token under `col`.
pub fn index_next_start_of_word(parsed_tokens: &[ParsedToken], col: usize) -> (found: Option<
    usize,
>)
    requires
        parsed_tokens@.len() == 0 || covered(parsed_tokens@, col as int),
    ensures
        found == next_start_of_word(parsed_tokens@, col as int),
{
    if parsed_tokens.len() == 0 {
        None
    } else {
        let ti: usize = index_tokens(parsed_tokens, col);
        let at: usize = find_non_space(parsed_tokens, ti + 1);
        start_of(parsed_tokens, at)
    }
}

/// The start of the first WORD of the line, which is the start of its first
/// word; 0 on a line without tokens.
#[allow(non_snake_case)]
pub fn index_first_start_of_WORD(parsed_tokens: &[ParsedToken]) -> (found: Option<usize>)
    ensures
        found == first_start_of_WORD(parsed_tokens@),
{
    index_first_start_of_word(parsed_tokens)
}

/// The start of the nearest WORD that lies after the WORD under `col`.
#[allow(non_snake_case)]
pub fn index_next_start_of_WORD(parsed_tokens: &[ParsedToken], col: usize) -> (found: Option<
    usize,
>)
    requires
        parsed_tokens@.len() == 0 || covered(parsed_tokens@, col as int),
    ensures
        found == next_start_of_WORD(parsed_tokens@, col as int),
{
    if parsed_tokens.len() == 0 {
        None
    } else {
        let ti: usize = index_tokens(parsed_tokens, col);
        let unit: usize = find_space(parsed_tokens, ti);
        let at: usize = find_non_space(parsed_tokens, unit);
        start_of(parsed_tokens, at)
    }
}

/// The end of the first word of the line; 0 on a line without tokens.
pub fn index_first_end_of_word(parsed_tokens: &[ParsedToken]) -> (found: Option<usize>)
    ensures
        found == first_end_of_word(parsed_tokens@),
{
    if parsed_tokens.len() == 0 {
        Some(0)
    } else {
        let at: usize = find_non_space(parsed_tokens, 0);
        end_of(parsed_tokens, at)
    }
}

/// The end of the nearest word that ends after `col`. A caret in the middle
/// of a word goes to the end of that word; a caret on the end of a word goes
/// to the word after.
pub fn index_next_end_of_word(parsed_tokens: &[ParsedToken], col: usize) -> (found: Option<usize>)
    requires
        parsed_tokens@.len() == 0 || covered(parsed_tokens@, col as int),
    ensures
        found == next_end_of_word(parsed_tokens@, col as int),
{
    if parsed_tokens.len() == 0 {
        None
    } else {
        let skip_first: usize = start_after_col(parsed_tokens, col);
        let at: usize = find_non_space(parsed_tokens, skip_first);
        end_of(parsed_tokens, at)
    }
}

/// The end of the first WORD of the line; 0 on a line without tokens.
#[allow(non_snake_case)]
pub fn index_first_end_of_WORD(parsed_tokens: &[ParsedToken]) -> (found: Option<usize>)
    ensures
        found == first_end_of_WORD(parsed_tokens@),
{
    if parsed_tokens.len() == 0 {
        Some(0)
    } else {
        let from: usize = find_non_space(parsed_tokens, 0);
        let until: usize = find_space(parsed_tokens, from);
        if from < until {
            end_of_previous(parsed_tokens, until)
        } else {
            None
        }
    }
}

/// The end of the nearest WORD that ends after `col`.
#[allow(non_snake_case)]
pub fn index_next_end_of_WORD(parsed_tokens: &[ParsedToken], col: usize) -> (found: Option<usize>)
    requires
        parsed_tokens@.len() == 0 || covered(parsed_tokens@, col as int),
    ensures
        found == next_end_of_WORD(parsed_tokens@, col as int),
{
    if parsed_tokens.len() == 0 {
        None
    } else {
        let skip_first: usize = start_after_col(parsed_tokens, col);
        let from: usize = find_non_space(parsed_tokens, skip_first);
        let until: usize = find_space(parsed_tokens, from);
        if from < until {
            end_of_previous(parsed_tokens, until)
        } else {
            None
        }
    }
}

/// On a line without tokens, the first and the last word or WORD start and
/// end at byte 0, and no column has a word or WORD before or after it.
pub proof fn lemma_line_without_tokens(col: int)
    ensures
        first_start_of_word(Seq::empty()) == Some(0usize),
        first_start_of_WORD(Seq::empty()) == Some(0usize),
        first_end_of_word(Seq::empty()) == Some(0usize),
        first_end_of_WORD(Seq::empty()) == Some(0usize),
        last_start_of_word(Seq::empty()) == Some(0usize),
        last_start_of_WORD(Seq::empty()) == Some(0usize),
        last_end_of_word(Seq::empty()) == Some(0usize),
        last_end_of_WORD(Seq::empty()) == Some(0usize),
        prev_start_of_word(Seq::empty(), col) == None::<usize>,
        prev_start_of_WORD(Seq::empty(), col) == None::<usize>,
        prev_end_of_word(Seq::empty(), col) == None::<usize>,
        prev_end_of_WORD(Seq::empty(), col) == None::<usize>,
        next_start_of_word(Seq::empty(), col) == None::<usize>,
        next_start_of_WORD(Seq::empty(), col) == None::<usize>,
        next_end_of_word(Seq::empty(), col) == None::<usize>,
        next_end_of_WORD(Seq::empty(), col) == None::<usize>,
{
}

} // verus!
