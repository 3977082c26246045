//! Regular expressions, compiled and matched by the `regex` crate.
//!
//! Nothing here is proved. The module states what the `regex` crate does for
//! the few forms of pattern this library compiles; the rest of the library is
//! verified against those statements.

use vstd::prelude::*;

verus! {

#[verifier::external_type_specification]
#[verifier::external_body]
pub struct ExRegex(regex::Regex);

#[verifier::external_type_specification]
#[verifier::external_body]
pub struct ExRegexError(regex::Error);

/// Whether `Regex::is_match` finds a match of `pattern` anywhere in
/// `haystack`. The answer depends on the two texts alone.
pub uninterp spec fn regex_is_match(pattern: Seq<char>, haystack: Seq<char>) -> bool;

/// The pattern matched by haystacks that are one or more whitespace
/// characters and nothing else.
pub const WHITESPACE_ONLY: &'static str = "^\\s+$";

/// The pattern matched by haystacks that hold a character which is not a
/// word character.
pub const NON_WORD: &'static str = "\\W+";

/// The characters with the Unicode property `White_Space`, which is the
/// class `\s`.
pub open spec fn is_white_space(c: char) -> bool {
    let v = c as u32;
    ||| 0x09 <= v <= 0x0D
    ||| v == 0x20
    ||| v == 0x85
    ||| v == 0xA0
    ||| v == 0x1680
    ||| 0x2000 <= v <= 0x200A
    ||| v == 0x2028
    ||| v == 0x2029
    ||| v == 0x202F
    ||| v == 0x205F
    ||| v == 0x3000
}

/// The ASCII characters of the class `\w`: letters, digits and the
/// underscore.
pub open spec fn is_ascii_word(c: char) -> bool {
    ||| '0' <= c <= '9'
    ||| 'A' <= c <= 'Z'
    ||| 'a' <= c <= 'z'
    ||| c == '_'
}

/// A bracketed class that lists characters outside ASCII one by one, such as
/// `[，。]`. No such character has a meaning of its own inside brackets, so
/// the class is the union of its members.
pub open spec fn is_literal_class(pattern: Seq<char>) -> bool {
    &&& pattern.len() >= 3
    &&& pattern.first() == '['
    &&& pattern.last() == ']'
    &&& forall|i: int| 1 <= i < pattern.len() - 1 ==> pattern[i] as u32 >= 0x80
}

/// The characters listed between the brackets of a literal class.
pub open spec fn class_members(pattern: Seq<char>) -> Seq<char> {
    pattern.subrange(1, pattern.len() - 1)
}

pub open spec fn all_white_space(text: Seq<char>) -> bool {
    forall|i: int| 0 <= i < text.len() ==> is_white_space(#[trigger] text[i])
}

pub open spec fn has_member(members: Seq<char>, text: Seq<char>) -> bool {
    exists|i: int| 0 <= i < text.len() && members.contains(#[trigger] text[i])
}

/// The Chinese characters of the block U+4E00 to U+9FFF, all of which are
/// in the class `\w`.
pub open spec fn is_ideograph(c: char) -> bool {
    0x4E00 <= c as u32 <= 0x9FFF
}

/// Whether `text` holds an ASCII character that is not in the class `\w`.
pub open spec fn has_ascii_non_word(text: Seq<char>) -> bool {
    exists|i: int|
        0 <= i < text.len() && (#[trigger] text[i]) as u32 <= 0x7F && !is_ascii_word(text[i])
}

/// Whether `text` is made of ASCII characters and Chinese characters of the
/// block U+4E00 to U+9FFF.
pub open spec fn is_plain_text(text: Seq<char>) -> bool {
    forall|i: int|
        0 <= i < text.len() ==> (#[trigger] text[i]) as u32 <= 0x7F || is_ideograph(text[i])
}

/// What the syntax of the `regex` crate gives for the patterns of this
/// library, where `found` is the answer of `Regex::is_match`.
pub open spec fn documented_match(pattern: Seq<char>, haystack: Seq<char>, found: bool) -> bool {
    &&& pattern == WHITESPACE_ONLY@ ==> found == (haystack.len() > 0 && all_white_space(haystack))
    &&& is_literal_class(pattern) ==> found == has_member(class_members(pattern), haystack)
    &&& pattern == NON_WORD@ && is_plain_text(haystack) ==> found == has_ascii_non_word(haystack)
}

/// Why a pattern did not compile.
#[derive(Debug, PartialEq, Eq)]
pub enum PatternError {
    /// The pattern is not in the syntax of the `regex` crate.
    Syntax(String),
    /// The compiled pattern would exceed the size limit, given in bytes.
    TooBig(usize),
    /// Another failure reported by the `regex` crate.
    Other,
}

/// A compiled regular expression, kept with the text it was compiled from.
pub struct Pattern {
    source: String,
    regex: regex::Regex,
}

/// Calls `Regex::new`. A pattern that comes back was compiled from the text
/// given; whether one comes back is up to the `regex` crate.
#[verifier::external_body]
fn regex_new(source: &str) -> (compiled: Result<Pattern, regex::Error>)
    ensures
        compiled matches Ok(pattern) ==> pattern.source@ == source@,
{
    match regex::Regex::new(source) {
        Ok(regex) => Ok(Pattern { source: source.to_string(), regex }),
        Err(error) => Err(error),
    }
}

/// Tells the variants of `regex::Error` apart.
#[verifier::external_body]
fn error_kind(error: regex::Error) -> PatternError {
    match error {
        regex::Error::Syntax(message) => PatternError::Syntax(message),
        regex::Error::CompiledTooBig(limit) => PatternError::TooBig(limit),
        _ => PatternError::Other,
    }
}

/// Calls `Regex::is_match`, which reports whether the pattern matches
/// anywhere in the haystack. For the forms of pattern that this library
/// compiles, the contract spells the answer out.
#[verifier::external_body]
fn regex_match(pattern: &Pattern, haystack: &str) -> (found: bool)
    ensures
        found == regex_is_match(pattern.source@, haystack@),
        documented_match(pattern.source@, haystack@, found),
{
    pattern.regex.is_match(haystack)
}

impl Pattern {
    /// The text this pattern was compiled from.
    pub closed spec fn source(&self) -> Seq<char> {
        self.source@
    }

    /// Compiles `source`.
    pub fn new(source: &str) -> (compiled: Result<Pattern, PatternError>)
        ensures
            compiled matches Ok(pattern) ==> pattern.source() == source@,
    {
        match regex_new(source) {
            Ok(pattern) => Ok(pattern),
            Err(error) => Err(error_kind(error)),
        }
    }

    /// Whether the pattern matches anywhere in `haystack`.
    pub fn is_match(&self, haystack: &str) -> (found: bool)
        ensures
            found == regex_is_match(self.source(), haystack@),
            documented_match(self.source(), haystack@, found),
    {
        regex_match(self, haystack)
    }
}

} // verus!
