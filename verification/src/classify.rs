//! The four kinds of token and how a word is given its kind.

use vstd::prelude::*;
use crate::pattern::{
    all_white_space, has_ascii_non_word, has_member, is_plain_text, regex_is_match, Pattern,
    PatternError, NON_WORD, WHITESPACE_ONLY,
};
use crate::punc::{
    is_punctuation, lemma_punctuation_class, lemma_punctuation_is_not_plain, PUNCTUATION,
    PUNCTUATION_CLASS,
};

verus! {

/// Types of tokens.
#[derive(Debug, PartialEq, Eq, Clone, Copy, Structural)]
pub enum TokenType {
    /// Whitespace characters, and the boundary marked between two words that
    /// touch.
    Space,
    /// Chinese punctuation.
    Punc,
    /// Other non-word characters.
    NonWord,
    /// Everything else: letters, digits, the underscore, Chinese characters.
    Hans,
}

impl TokenType {
    /// Whether this is `Space`.
    pub fn is_space(&self) -> (space: bool)
        ensures
            space == (*self == TokenType::Space),
    {
        match self {
            TokenType::Space => true,
            _ => false,
        }
    }

    /// The kind of a word, from what is known of its characters. The tests
    /// are taken in a fixed order: whitespace first, then punctuation, then
    /// non-word characters.
    pub open spec fn decide(blank: bool, punctuation: bool, non_word: bool) -> TokenType {
        if blank {
            TokenType::Space
        } else if punctuation {
            TokenType::Punc
        } else if non_word {
            TokenType::NonWord
        } else {
            TokenType::Hans
        }
    }

    /// The kind of a word that is `blank` (empty or all whitespace), holds
    /// `punctuation`, or holds a `non_word` character.
    pub fn from_tests(blank: bool, punctuation: bool, non_word: bool) -> (kind: TokenType)
        ensures
            kind == Self::decide(blank, punctuation, non_word),
    {
        if blank {
            TokenType::Space
        } else if punctuation {
            TokenType::Punc
        } else if non_word {
            TokenType::NonWord
        } else {
            TokenType::Hans
        }
    }
}

/// Whether `token` holds a Chinese punctuation mark.
pub open spec fn has_punctuation(token: Seq<char>) -> bool {
    exists|i: int| 0 <= i < token.len() && is_punctuation(#[trigger] token[i])
}

/// Whether `token` holds a character that is not a word character, as the
/// class `\W` of the `regex` crate defines it: anything but letters, marks,
/// digits and connector punctuation of any script.
pub open spec fn has_non_word(token: Seq<char>) -> bool {
    regex_is_match(NON_WORD@, token)
}

/// The kind of `token`.
///
/// It is `Space` if the token is empty or all whitespace; else `Punc` if it
/// holds a Chinese punctuation mark; else `NonWord` if it holds a non-word
/// character; else `Hans`.
pub open spec fn token_type_of(token: Seq<char>) -> TokenType {
    TokenType::decide(all_white_space(token), has_punctuation(token), has_non_word(token))
}

/// The kind of a token of ASCII characters and Chinese characters of the
/// block U+4E00 to U+9FFF, in which the word characters are the letters,
/// the digits, the underscore and the Chinese characters: `Space` if it is
/// empty or all whitespace, else `NonWord` if it holds an ASCII character
/// that is no word character, else `Hans`.
pub open spec fn plain_token_type_of(token: Seq<char>) -> TokenType {
    TokenType::decide(all_white_space(token), false, has_ascii_non_word(token))
}

/// Gives words their kind. It holds the three compiled patterns that the
/// tests need, so that they are compiled once.
pub struct Classifier {
    blank: Pattern,
    punctuation: Pattern,
    non_word: Pattern,
}

impl Classifier {
    #[verifier::type_invariant]
    spec fn patterns(&self) -> bool {
        &&& self.blank.source() == WHITESPACE_ONLY@
        &&& self.punctuation.source() == PUNCTUATION_CLASS@
        &&& self.non_word.source() == NON_WORD@
    }

    /// The text of the pattern that tells a blank word.
    pub closed spec fn blank_source(&self) -> Seq<char> {
        self.blank.source()
    }

    /// The text of the pattern that finds a punctuation mark.
    pub closed spec fn punctuation_source(&self) -> Seq<char> {
        self.punctuation.source()
    }

    /// The text of the pattern that finds a non-word character.
    pub closed spec fn non_word_source(&self) -> Seq<char> {
        self.non_word.source()
    }

    /// Compiles the three patterns: `WHITESPACE_ONLY`, `PUNCTUATION_CLASS`
    /// and `NON_WORD`. It fails when the `regex` crate refuses one of them,
    /// with the error of the first that it refuses.
    pub fn new() -> (made: Result<Classifier, PatternError>)
        ensures
            made matches Ok(classifier) ==> {
                &&& classifier.blank_source() == WHITESPACE_ONLY@
                &&& classifier.punctuation_source() == PUNCTUATION_CLASS@
                &&& classifier.non_word_source() == NON_WORD@
            },
    {
        let blank = match Pattern::new(WHITESPACE_ONLY) {
            Ok(pattern) => pattern,
            Err(error) => { return Err(error); },
        };
        let punctuation = match Pattern::new(PUNCTUATION_CLASS) {
            Ok(pattern) => pattern,
            Err(error) => { return Err(error); },
        };
        let non_word = match Pattern::new(NON_WORD) {
            Ok(pattern) => pattern,
            Err(error) => { return Err(error); },
        };
        Ok(Classifier { blank, punctuation, non_word })
    }

    /// The kind of `token`.
    pub fn classify(&self, token: &str) -> (kind: TokenType)
        ensures
            kind == token_type_of(token@),
            is_plain_text(token@) ==> kind == plain_token_type_of(token@),
    {
        proof {
            use_type_invariant(self);
            lemma_punctuation_class();
        }
        let blank = token.is_empty() || self.blank.is_match(token);
        let punctuation = self.punctuation.is_match(token);
        let non_word = self.non_word.is_match(token);
        assert(punctuation == has_member(PUNCTUATION@, token@));
        proof {
            if is_plain_text(token@) && has_punctuation(token@) {
                let i = choose|i: int| 0 <= i < token@.len() && is_punctuation(#[trigger] token@[i]);
                lemma_punctuation_is_not_plain(token@[i]);
            }
        }
        TokenType::from_tests(blank, punctuation, non_word)
    }
}

} // verus!
