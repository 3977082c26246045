//! Words, as the `jieba_rs` crate splits a line into them.
//!
//! Nothing is proved of the segmenter. Which words it finds depends on its
//! dictionary; what this module states is what holds with any dictionary:
//! the words are not empty and, one after the other, they are the line.

use vstd::prelude::*;
use vstd::string::StrSliceExecFns;
use crate::classify::Classifier;
use crate::merge::{lemma_merged_grows, merge_tokens, merged};
use crate::pattern::is_white_space;
use crate::token::{
    byte_length, lemma_offset_is_byte_len, lemma_tokens_contiguous, no_empty_word, parseable,
    plainly_typed, texts, tokenized, try_parse_tokens, ParsedToken,
};

verus! {

#[verifier::external_type_specification]
#[verifier::external_body]
pub struct ExJieba(jieba_rs::Jieba);

#[verifier::external_type_specification]
#[verifier::external_body]
pub struct ExJiebaError(jieba_rs::Error);

/// Why a dictionary could not be loaded.
#[derive(Debug, PartialEq, Eq)]
pub enum DictionaryError {
    /// A frequency has more than nine digits, or the text is so long that
    /// its frequencies might not add up in a machine word.
    FrequenciesTooLarge,
    /// The text holds the character U+0000, which no word may hold.
    HoldsNul,
    /// The segmenter refused the text, for the reason it gives.
    Refused(String),
}

/// Splits lines into words.
pub struct Segmenter {
    model: jieba_rs::Jieba,
}

/// Whether `Jieba::with_dict` takes the dictionary written in `dict`. The
/// answer depends on the text alone, for a text whose frequencies fit.
pub uninterp spec fn jieba_loads(dict: Seq<char>) -> bool;

/// Where a reader stands in a line of a dictionary after the first `until`
/// characters of `text`: how many fields of the line have ended, counted up
/// to two; whether the reader is inside a field; and how many digits it has
/// seen in the field, if that is the second of its line, the frequency.
///
/// A line ends with a line feed; whitespace parts the fields of a line.
pub open spec fn scan(text: Seq<char>, until: int) -> (int, bool, int)
    decreases until,
{
    if until <= 0 || until > text.len() {
        (0, false, 0)
    } else {
        let (fields, inside, digits) = scan(text, until - 1);
        let c = text[until - 1];
        if c == '\n' {
            (0, false, 0)
        } else if is_white_space(c) {
            (if inside && fields < 2 { fields + 1 } else { fields }, false, 0)
        } else {
            (fields, true, if fields == 1 && '0' <= c <= '9' { digits + 1 } else { digits })
        }
    }
}

/// Whether the frequencies of the dictionary written in `dict` add up in a
/// machine word, whatever its entries are: no frequency has more than nine
/// digits, so that each is below 1 000 000 000, and the text is short enough
/// for as many such frequencies as it has characters.
pub open spec fn frequencies_fit(dict: Seq<char>) -> bool {
    &&& forall|until: int| 0 <= until <= dict.len() ==> (#[trigger] scan(dict, until)).2 <= 9
    &&& dict.len() * 1_000_000_000 <= usize::MAX
}

/// Whether `text` holds the character U+0000.
pub open spec fn holds_nul(text: Seq<char>) -> bool {
    exists|i: int| 0 <= i < text.len() && #[trigger] text[i] == '\0'
}

/// Whether `c` is whitespace.
pub fn is_whitespace_char(c: char) -> (blank: bool)
    ensures
        blank == is_white_space(c),
{
    let v: u32 = c as u32;
    (0x09 <= v && v <= 0x0D) || v == 0x20 || v == 0x85 || v == 0xA0 || v == 0x1680 || (0x2000
        <= v && v <= 0x200A) || v == 0x2028 || v == 0x2029 || v == 0x202F || v == 0x205F || v
        == 0x3000
}

/// Whether the frequencies of the dictionary written in `dict` add up in a
/// machine word.
pub fn check_frequencies(dict: &str) -> (fits: bool)
    ensures
        fits == frequencies_fit(dict@),
{
    let length: usize = dict.unicode_len();
    let mut fields: u8 = 0;
    let mut inside: bool = false;
    let mut digits: u8 = 0;
    let mut count: usize = 0;
    for c in it: dict.chars()
        invariant
            it.seq() == dict@,
            length == dict@.len(),
            count == it.index(),
            scan(dict@, count as int) == (fields as int, inside, digits as int),
            fields <= 2,
            forall|until: int| 0 <= until <= count ==> (#[trigger] scan(dict@, until)).2 <= 9,
    {
        assert(c == dict@[count as int]);
        count = count + 1;
        if c == '\n' {
            fields = 0;
            inside = false;
            digits = 0;
        } else if is_whitespace_char(c) {
            if inside && fields < 2 {
                fields = fields + 1;
            }
            inside = false;
            digits = 0;
        } else {
            inside = true;
            if fields == 1 && '0' <= c && c <= '9' {
                digits = digits + 1;
                if digits > 9 {
                    assert(scan(dict@, count as int).2 > 9);
                    return false;
                }
            }
        }
    }
    length <= usize::MAX / 1_000_000_000
}

/// Whether `text` holds the character U+0000.
pub fn check_nul(text: &str) -> (found: bool)
    ensures
        found == holds_nul(text@),
{
    for c in it: text.chars()
        invariant
            it.seq() == text@,
            forall|i: int| 0 <= i < it.index() ==> #[trigger] text@[i] != '\0',
    {
        if c == '\0' {
            return true;
        }
    }
    false
}

/// Calls `Jieba::new`, which loads the dictionary that the crate carries.
#[verifier::external_body]
fn jieba_new() -> jieba_rs::Jieba {
    jieba_rs::Jieba::new()
}

/// Calls `Jieba::with_dict` on the text of a dictionary, which holds one
/// entry a line: a word, its frequency, and a tag. The crate adds all the
/// frequencies up in a machine word, and its trie of words gives U+0000 a
/// meaning of its own, so the text must be one whose frequencies fit and
/// which holds no U+0000. Whether the text is taken is up to the crate, and
/// depends on the text alone.
#[verifier::external_body]
fn jieba_with_dict(dict: &str) -> (loaded: Result<jieba_rs::Jieba, jieba_rs::Error>)
    requires
        frequencies_fit(dict@),
        !holds_nul(dict@),
    ensures
        loaded is Ok <==> jieba_loads(dict@),
{
    jieba_rs::Jieba::with_dict(&mut std::io::BufReader::new(dict.as_bytes()))
}

/// Writes out a `jieba_rs::Error`.
#[verifier::external_body]
fn jieba_error_message(error: &jieba_rs::Error) -> String {
    format!("{}", error)
}

/// Calls `Jieba::cut`, which splits `sentence` into words, with or without
/// the hidden Markov model for words that the dictionary lacks. Every word
/// is a piece of the sentence that holds a character, and the pieces follow
/// one another from the start of the sentence to its end.
#[verifier::external_body]
fn jieba_cut<'a>(model: &jieba_rs::Jieba, sentence: &'a str, hmm: bool) -> (words: Vec<&'a str>)
    ensures
        no_empty_word(texts(words@)),
        texts(words@).flatten() == sentence@,
{
    model.cut(sentence, hmm)
}

impl Segmenter {
    /// A segmenter with the dictionary that `jieba_rs` carries.
    pub fn new() -> Segmenter {
        Segmenter { model: jieba_new() }
    }

    /// A segmenter with the dictionary written in `dict`.
    ///
    /// A text whose frequencies might not add up in a machine word is
    /// refused here, and so is a text that holds U+0000. Any other text goes
    /// to the segmenter, which takes it or refuses it.
    pub fn with_dict(dict: &str) -> (made: Result<Segmenter, DictionaryError>)
        ensures
            made matches Err(DictionaryError::FrequenciesTooLarge) <==> !frequencies_fit(dict@),
            made matches Err(DictionaryError::HoldsNul) <==> frequencies_fit(dict@) && holds_nul(
                dict@,
            ),
            made is Ok <==> frequencies_fit(dict@) && !holds_nul(dict@) && jieba_loads(dict@),
    {
        if !check_frequencies(dict) {
            return Err(DictionaryError::FrequenciesTooLarge);
        }
        if check_nul(dict) {
            return Err(DictionaryError::HoldsNul);
        }
        match jieba_with_dict(dict) {
            Ok(model) => Ok(Segmenter { model }),
            Err(error) => Err(DictionaryError::Refused(jieba_error_message(&error))),
        }
    }

    /// The words of `line`: none is empty, and one after the other they are
    /// the line. Words that the dictionary lacks are found by the hidden
    /// Markov model.
    pub fn cut<'a>(&self, line: &'a str) -> (words: Vec<&'a str>)
        ensures
            no_empty_word(texts(words@)),
            texts(words@).flatten() == line@,
    {
        jieba_cut(&self.model, line, true)
    }

    /// The tokens of `line`, with their implicit boundaries marked: the
    /// tokens of some words that make up the line. Among these, a word of
    /// ASCII characters and common Chinese characters has the kind that is
    /// spelled out for such words.
    pub fn tokenize(&self, classifier: &Classifier, line: &str) -> (tokens: Option<
        Vec<ParsedToken>,
    >)
        ensures
            tokens is Some,
            exists|words: Seq<Seq<char>>|
                words.flatten() == line@ && parseable(words) && plainly_typed(words)
                    && tokens->Some_0@ == #[trigger] merged(tokenized(words)),
            tokens->Some_0@.len() > 0 ==> tokens->Some_0@.first().start_byte_index == 0
                && !tokens->Some_0@.last().zero_width,
    {
        let words = self.cut(line);
        let length: usize = byte_length(line);
        proof {
            let found = texts(words@);
            assert(found.take(found.len() as int) =~= found);
            lemma_offset_is_byte_len(found, found.len() as int);
            assert(parseable(found));
        }
        match try_parse_tokens(classifier, words.as_slice()) {
            Some(parsed) => {
                proof {
                    lemma_tokens_contiguous(texts(words@));
                    if parsed@.len() > 0 {
                        lemma_merged_grows(parsed@);
                    }
                }
                Some(merge_tokens(parsed))
            },
            None => None,
        }
    }
}

} // verus!
