//! Tokens: the words of a line, each with its kind and its place in the
//! bytes of the line.

use vstd::prelude::*;
use vstd::string::StrSliceExecFns;
use vstd::string::StringSliceAdditionalSpecFns;
use vstd::utf8::{encode_scalar, encode_utf8};
use crate::classify::{plain_token_type_of, token_type_of, Classifier, TokenType};
use crate::pattern::is_plain_text;

verus! {

/// A word of a line.
///
/// Offsets count bytes from the start of the line. `end_byte_index` is the
/// offset of the first byte of the word's last character, which is where a
/// caret rests on the word's end; it is not one past the end.
///
/// A token with `zero_width` set is a boundary mark: it stands for no
/// character, sits at `start_byte_index`, and has no last character, so its
/// `end_byte_index` is not read. Its end is one less than its start, which
/// only `end` can express.
#[derive(Debug, PartialEq, Eq, Clone, Copy, Structural)]
pub struct ParsedToken {
    /// Byte index of the first character of the token.
    pub start_byte_index: usize,
    /// Byte index of the last character of the token.
    pub end_byte_index: usize,
    /// Type of the token.
    pub token_type: TokenType,
    /// Whether the token is a boundary mark that stands for no character.
    pub zero_width: bool,
}

impl ParsedToken {
    /// Where the token ends. For a boundary mark this is one less than where
    /// it starts, and may be negative.
    pub open spec fn end(self) -> int {
        if self.zero_width {
            self.start_byte_index - 1
        } else {
            self.end_byte_index as int
        }
    }

    /// Whether the token ends on byte `col`. A boundary mark, which ends
    /// before it starts, ends on no byte at or after its own offset.
    pub open spec fn ends_at(self, col: int) -> bool {
        self.end() == col
    }

    /// Whether the token is of kind `Space`.
    pub open spec fn is_space(self) -> bool {
        self.token_type == TokenType::Space
    }

    /// A token that spans characters.
    pub fn new(start_byte_index: usize, end_byte_index: usize, token_type: TokenType) -> (token:
        ParsedToken)
        ensures
            token == (ParsedToken {
                start_byte_index,
                end_byte_index,
                token_type,
                zero_width: false,
            }),
    {
        ParsedToken { start_byte_index, end_byte_index, token_type, zero_width: false }
    }

    /// The boundary mark at offset `at`.
    pub open spec fn mark(at: usize) -> ParsedToken {
        ParsedToken {
            start_byte_index: at,
            end_byte_index: at,
            token_type: TokenType::Space,
            zero_width: true,
        }
    }

    /// The boundary mark at offset `at`: a `Space` that stands for no
    /// character.
    pub fn implicit_space(at: usize) -> (token: ParsedToken)
        ensures
            token == Self::mark(at),
            token.end() == at - 1,
    {
        ParsedToken {
            start_byte_index: at,
            end_byte_index: at,
            token_type: TokenType::Space,
            zero_width: true,
        }
    }
}

/// The number of bytes that `c` takes in UTF-8.
pub open spec fn utf8_width(c: char) -> nat {
    let v = c as u32;
    if v < 0x80 {
        1
    } else if v < 0x800 {
        2
    } else if v < 0x10000 {
        3
    } else {
        4
    }
}

/// The number of bytes that `text` takes in UTF-8.
pub open spec fn byte_len(text: Seq<char>) -> nat
    decreases text.len(),
{
    if text.len() == 0 {
        0
    } else {
        utf8_width(text.first()) + byte_len(text.drop_first())
    }
}

/// `utf8_width` is the length of the character's encoding.
pub proof fn lemma_utf8_width(c: char)
    ensures
        utf8_width(c) == encode_scalar(c as u32).len(),
{
}

/// `byte_len` is the length of the text's encoding.
pub proof fn lemma_byte_len(text: Seq<char>)
    ensures
        byte_len(text) == encode_utf8(text).len(),
    decreases text.len(),
{
    if text.len() > 0 {
        lemma_utf8_width(text.first());
        lemma_byte_len(text.drop_first());
    }
}

/// The bytes of two texts put together are counted text by text.
pub proof fn lemma_byte_len_concat(left: Seq<char>, right: Seq<char>)
    ensures
        byte_len(left + right) == byte_len(left) + byte_len(right),
    decreases left.len(),
{
    if left.len() == 0 {
        assert(left + right =~= right);
    } else {
        assert((left + right).drop_first() =~= left.drop_first() + right);
        lemma_byte_len_concat(left.drop_first(), right);
    }
}

/// A text with a character in it is at least as long as its last character.
pub proof fn lemma_byte_len_last(text: Seq<char>)
    requires
        text.len() > 0,
    ensures
        byte_len(text) == byte_len(text.drop_last()) + utf8_width(text.last()),
{
    let last = seq![text.last()];
    assert(text =~= text.drop_last() + last);
    lemma_byte_len_concat(text.drop_last(), last);
    assert(byte_len(last) == utf8_width(text.last())) by {
        reveal_with_fuel(byte_len, 2);
    }
}

/// The number of bytes that `c` takes in UTF-8.
pub fn char_width(c: char) -> (width: usize)
    ensures
        width == utf8_width(c),
{
    let v: u32 = c as u32;
    if v < 0x80 {
        1
    } else if v < 0x800 {
        2
    } else if v < 0x10000 {
        3
    } else {
        4
    }
}

/// The number of bytes of `word`.
pub fn byte_length(word: &str) -> (len: usize)
    ensures
        len == byte_len(word@),
{
    proof {
        lemma_byte_len(word@);
    }
    word.as_bytes().len()
}

/// The number of bytes of the last character of `word`.
pub fn last_char_width(word: &str) -> (width: usize)
    requires
        word@.len() > 0,
    ensures
        width == utf8_width(word@.last()),
        width <= byte_len(word@),
{
    let count: usize = word.unicode_len();
    let last: char = word.get_char(count - 1);
    proof {
        lemma_byte_len_last(word@);
    }
    char_width(last)
}

/// The words as texts.
pub open spec fn texts(words: Seq<&str>) -> Seq<Seq<char>> {
    words.map_values(|word: &str| word@)
}

/// The number of bytes in the first `count` words.
pub open spec fn offset(words: Seq<Seq<char>>, count: int) -> nat
    decreases count,
{
    if count <= 0 {
        0
    } else {
        offset(words, count - 1) + byte_len(words[count - 1])
    }
}

/// The token for word `i` of `words`: it starts where the words before it
/// end, and it ends on the first byte of its own last character.
pub open spec fn token_at(words: Seq<Seq<char>>, i: int) -> ParsedToken {
    ParsedToken {
        start_byte_index: offset(words, i) as usize,
        end_byte_index: (offset(words, i + 1) - utf8_width(words[i].last())) as usize,
        token_type: token_type_of(words[i]),
        zero_width: false,
    }
}

/// The tokens of a line that was split into `words`.
pub open spec fn tokenized(words: Seq<Seq<char>>) -> Seq<ParsedToken> {
    Seq::new(words.len(), |i: int| token_at(words, i))
}

/// Whether no word is empty.
pub open spec fn no_empty_word(words: Seq<Seq<char>>) -> bool {
    forall|i: int| 0 <= i < words.len() ==> (#[trigger] words[i]).len() > 0
}

/// Whether every word of ASCII characters and Chinese characters of the
/// block U+4E00 to U+9FFF has the kind that is spelled out for such words.
pub open spec fn plainly_typed(words: Seq<Seq<char>>) -> bool {
    forall|i: int|
        0 <= i < words.len() && is_plain_text(#[trigger] words[i]) ==> token_type_of(words[i])
            == plain_token_type_of(words[i])
}

/// Offsets grow with the number of words.
pub proof fn lemma_offset_monotonic(words: Seq<Seq<char>>, i: int, j: int)
    requires
        i <= j,
    ensures
        offset(words, i) <= offset(words, j),
    decreases j - i,
{
    if i < j {
        lemma_offset_monotonic(words, i, j - 1);
    }
}

/// Parse a list of words into a list of `ParsedToken`s. No word may be
/// empty, and the words together must be no longer than a line can be.
pub fn parse_tokens(classifier: &Classifier, tokens: &[&str]) -> (parsed: Vec<ParsedToken>)
    requires
        no_empty_word(texts(tokens@)),
        offset(texts(tokens@), tokens@.len() as int) <= usize::MAX,
    ensures
        parsed@ == tokenized(texts(tokens@)),
        forall|i: int|
            0 <= i < parsed@.len() && is_plain_text(texts(tokens@)[i]) ==> (
            #[trigger] parsed@[i]).token_type == plain_token_type_of(texts(tokens@)[i]),
        plainly_typed(texts(tokens@)),
{
    let ghost words = texts(tokens@);
    let mut parsed: Vec<ParsedToken> = Vec::new();
    let mut cum_byte_index: usize = 0;
    let mut i: usize = 0;
    while i < tokens.len()
        invariant
            words == texts(tokens@),
            no_empty_word(words),
            offset(words, tokens@.len() as int) <= usize::MAX,
            i <= tokens@.len(),
            cum_byte_index == offset(words, i as int),
            parsed@ == tokenized(words).take(i as int),
            forall|k: int|
                0 <= k < i && is_plain_text(#[trigger] words[k]) ==> token_type_of(words[k])
                    == plain_token_type_of(words[k]),
        decreases tokens@.len() - i,
    {
        let tok: &str = tokens[i];
        assert(tok@ == words[i as int]);
        proof {
            lemma_offset_monotonic(words, i + 1, tokens@.len() as int);
        }
        let start_byte_index: usize = cum_byte_index;
        let token_type = classifier.classify(tok);
        let width: usize = last_char_width(tok);
        cum_byte_index = cum_byte_index + byte_length(tok);
        let end_byte_index: usize = cum_byte_index - width;
        parsed.push(ParsedToken::new(start_byte_index, end_byte_index, token_type));
        assert(parsed@ =~= tokenized(words).take(i + 1));
        i = i + 1;
    }
    assert(parsed@ =~= tokenized(words));
    parsed
}

/// Whether `parse_tokens` takes `words`: no word is empty, and the words
/// together are no longer than a line can be.
pub open spec fn parseable(words: Seq<Seq<char>>) -> bool {
    &&& no_empty_word(words)
    &&& offset(words, words.len() as int) <= usize::MAX
}

/// Parse a list of words into a list of `ParsedToken`s, if the list is one
/// that `parse_tokens` takes.
pub fn try_parse_tokens(classifier: &Classifier, tokens: &[&str]) -> (parsed: Option<
    Vec<ParsedToken>,
>)
    ensures
        parsed is Some <==> parseable(texts(tokens@)),
        parsed matches Some(list) ==> list@ == tokenized(texts(tokens@)),
        parsed matches Some(list) ==> forall|i: int|
            0 <= i < list@.len() && is_plain_text(texts(tokens@)[i]) ==> (
            #[trigger] list@[i]).token_type == plain_token_type_of(texts(tokens@)[i]),
        parsed is Some ==> plainly_typed(texts(tokens@)),
{
    let ghost words = texts(tokens@);
    let mut total: usize = 0;
    let mut i: usize = 0;
    while i < tokens.len()
        invariant
            words == texts(tokens@),
            i <= tokens@.len(),
            total == offset(words, i as int),
            forall|k: int| 0 <= k < i ==> (#[trigger] words[k]).len() > 0,
        decreases tokens@.len() - i,
    {
        let tok: &str = tokens[i];
        assert(tok@ == words[i as int]);
        if tok.is_empty() {
            return None;
        }
        assert(offset(words, i + 1) == offset(words, i as int) + byte_len(tok@));
        match total.checked_add(byte_length(tok)) {
            Some(sum) => {
                total = sum;
            },
            None => {
                proof {
                    lemma_offset_monotonic(words, i + 1, tokens@.len() as int);
                }
                return None;
            },
        }
        i = i + 1;
    }
    Some(parse_tokens(classifier, tokens))
}

/// The bytes before word `count` are the bytes of the words before it, put
/// together.
pub proof fn lemma_offset_is_byte_len(words: Seq<Seq<char>>, count: int)
    requires
        0 <= count <= words.len(),
    ensures
        offset(words, count) == byte_len(words.take(count).flatten()),
    decreases count,
{
    if count == 0 {
        assert(words.take(0) =~= Seq::<Seq<char>>::empty());
    } else {
        lemma_offset_is_byte_len(words, count - 1);
        let before = words.take(count - 1);
        assert(words.take(count) =~= before.push(words[count - 1]));
        before.lemma_flatten_push(words[count - 1]);
        lemma_byte_len_concat(before.flatten(), words[count - 1]);
    }
}

/// The tokens of a line lie one after the other and take up the line.
///
/// Let the line be split into words of which none is empty. Then the first
/// token starts at byte 0; every token starts where the words before it
/// end, and ends on the first byte of its last character; behind that
/// character the next token starts; and behind the last token's last
/// character the line is over, so that the tokens' spans add up to the bytes
/// of the line.
pub proof fn lemma_tokens_contiguous(words: Seq<Seq<char>>)
    requires
        parseable(words),
    ensures
        tokenized(words).len() == words.len(),
        words.len() > 0 ==> tokenized(words).first().start_byte_index == 0,
        forall|i: int|
            0 <= i < words.len() ==> {
                let token = #[trigger] tokenized(words)[i];
                &&& !token.zero_width
                &&& token.start_byte_index == byte_len(words.take(i).flatten())
                &&& token.start_byte_index <= token.end_byte_index
                &&& token.end_byte_index + utf8_width(words[i].last()) == byte_len(
                    words.take(i + 1).flatten(),
                )
            },
        forall|i: int, next: int|
            0 <= i && next == i + 1 && next < words.len() ==> (#[trigger] tokenized(
                words,
            )[i]).end_byte_index + utf8_width(words[i].last()) == (#[trigger] tokenized(
                words,
            )[next]).start_byte_index,
        words.len() > 0 ==> tokenized(words).last().end_byte_index + utf8_width(
            words.last().last(),
        ) == byte_len(words.flatten()),
{
    assert(words.take(words.len() as int) =~= words);
    assert forall|i: int| 0 <= i < words.len() implies {
        let token = #[trigger] tokenized(words)[i];
        &&& !token.zero_width
        &&& token.start_byte_index == offset(words, i)
        &&& token.start_byte_index == byte_len(words.take(i).flatten())
        &&& token.start_byte_index <= token.end_byte_index
        &&& token.end_byte_index + utf8_width(words[i].last()) == offset(words, i + 1)
        &&& token.end_byte_index + utf8_width(words[i].last()) == byte_len(
            words.take(i + 1).flatten(),
        )
    } by {
        lemma_offset_monotonic(words, i, words.len() as int);
        lemma_offset_monotonic(words, i + 1, words.len() as int);
        lemma_offset_is_byte_len(words, i);
        lemma_offset_is_byte_len(words, i + 1);
        lemma_byte_len_last(words[i]);
    }
}

} // verus!
