//! Word-motion targets over text that a segmenter has split into words.
//!
//! A line of mixed Chinese and Latin text carries no blanks between its
//! Chinese words, so the boundaries that motions such as `w`, `b`, `e` and
//! `ge` jump between cannot be read off the whitespace. This crate takes the
//! words a segmenter produces for a line, classifies and positions them,
//! marks the boundaries the segmenter leaves implicit, and computes where a
//! motion lands, on the line or across lines.

pub mod classify;
pub mod index;
pub mod merge;
pub mod navigate;
pub mod pattern;
pub mod punc;
pub mod segment;
pub mod token;

pub use classify::{Classifier, TokenType};
pub use index::{
    find_token, index_first_end_of_WORD, index_first_end_of_word, index_first_start_of_WORD,
    index_first_start_of_word, index_last_end_of_WORD, index_last_end_of_word,
    index_last_start_of_WORD, index_last_start_of_word, index_next_end_of_WORD,
    index_next_end_of_word, index_next_start_of_WORD, index_next_start_of_word,
    index_prev_end_of_WORD, index_prev_end_of_word, index_prev_start_of_WORD,
    index_prev_start_of_word, index_tokens,
};
pub use merge::{insert_implicit_space_rule, merge_tokens, stack_merge};
pub use navigate::{begin, final_col_default, navigate, proceed, Direction, Motion, Step};
pub use pattern::{Pattern, PatternError};
pub use segment::{check_frequencies, check_nul, DictionaryError, Segmenter};
pub use token::{parse_tokens, try_parse_tokens, ParsedToken};
