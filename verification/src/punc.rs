//! The punctuation marks of Chinese text.
//!
//! The table is fixed data: the marks that do not end a sentence, then the
//! marks that do.

use vstd::prelude::*;
use crate::pattern::{class_members, is_ideograph, is_literal_class};

verus! {

/// Chinese punctuation marks that do not end a sentence: fullwidth forms of
/// ASCII marks, halfwidth CJK marks, CJK symbols and brackets, dashes,
/// quotation marks, the ellipsis and the middle dots.
pub const NON_STOPS: &'static str =
    "\u{FF02}\u{FF03}\u{FF04}\u{FF05}\u{FF06}\u{FF07}\u{FF08}\u{FF09}\u{FF0A}\u{FF0B}\u{FF0C}\u{FF0D}\u{FF0F}\u{FF1A}\u{FF1B}\u{FF1C}\u{FF1D}\u{FF1E}\u{FF20}\u{FF3B}\u{FF3C}\u{FF3D}\u{FF3E}\u{FF3F}\u{FF40}\u{FF5B}\u{FF5C}\u{FF5D}\u{FF5E}\u{FF5F}\u{FF60}\u{FF62}\u{FF63}\u{FF64}\u{3000}\u{3001}\u{3003}\u{3008}\u{3009}\u{300A}\u{300B}\u{300C}\u{300D}\u{300E}\u{300F}\u{3010}\u{3011}\u{3014}\u{3015}\u{3016}\u{3017}\u{3018}\u{3019}\u{301A}\u{301B}\u{301C}\u{301D}\u{301E}\u{301F}\u{3030}\u{303E}\u{303F}\u{2013}\u{2014}\u{2018}\u{2019}\u{201B}\u{201C}\u{201D}\u{201E}\u{201F}\u{2026}\u{2027}\u{FE4F}\u{FE51}\u{FE54}\u{00B7}";

/// Chinese punctuation marks that end a sentence: the fullwidth full stop,
/// exclamation mark and question mark, and the two ideographic full stops.
pub const STOPS: &'static str = "\u{FF0E}\u{FF01}\u{FF1F}\u{FF61}\u{3002}";

/// All Chinese punctuation: `NON_STOPS` followed by `STOPS`.
pub const PUNCTUATION: &'static str =
    "\u{FF02}\u{FF03}\u{FF04}\u{FF05}\u{FF06}\u{FF07}\u{FF08}\u{FF09}\u{FF0A}\u{FF0B}\u{FF0C}\u{FF0D}\u{FF0F}\u{FF1A}\u{FF1B}\u{FF1C}\u{FF1D}\u{FF1E}\u{FF20}\u{FF3B}\u{FF3C}\u{FF3D}\u{FF3E}\u{FF3F}\u{FF40}\u{FF5B}\u{FF5C}\u{FF5D}\u{FF5E}\u{FF5F}\u{FF60}\u{FF62}\u{FF63}\u{FF64}\u{3000}\u{3001}\u{3003}\u{3008}\u{3009}\u{300A}\u{300B}\u{300C}\u{300D}\u{300E}\u{300F}\u{3010}\u{3011}\u{3014}\u{3015}\u{3016}\u{3017}\u{3018}\u{3019}\u{301A}\u{301B}\u{301C}\u{301D}\u{301E}\u{301F}\u{3030}\u{303E}\u{303F}\u{2013}\u{2014}\u{2018}\u{2019}\u{201B}\u{201C}\u{201D}\u{201E}\u{201F}\u{2026}\u{2027}\u{FE4F}\u{FE51}\u{FE54}\u{00B7}\u{FF0E}\u{FF01}\u{FF1F}\u{FF61}\u{3002}";

/// The bracketed character class that lists `PUNCTUATION`.
pub const PUNCTUATION_CLASS: &'static str =
    "[\u{FF02}\u{FF03}\u{FF04}\u{FF05}\u{FF06}\u{FF07}\u{FF08}\u{FF09}\u{FF0A}\u{FF0B}\u{FF0C}\u{FF0D}\u{FF0F}\u{FF1A}\u{FF1B}\u{FF1C}\u{FF1D}\u{FF1E}\u{FF20}\u{FF3B}\u{FF3C}\u{FF3D}\u{FF3E}\u{FF3F}\u{FF40}\u{FF5B}\u{FF5C}\u{FF5D}\u{FF5E}\u{FF5F}\u{FF60}\u{FF62}\u{FF63}\u{FF64}\u{3000}\u{3001}\u{3003}\u{3008}\u{3009}\u{300A}\u{300B}\u{300C}\u{300D}\u{300E}\u{300F}\u{3010}\u{3011}\u{3014}\u{3015}\u{3016}\u{3017}\u{3018}\u{3019}\u{301A}\u{301B}\u{301C}\u{301D}\u{301E}\u{301F}\u{3030}\u{303E}\u{303F}\u{2013}\u{2014}\u{2018}\u{2019}\u{201B}\u{201C}\u{201D}\u{201E}\u{201F}\u{2026}\u{2027}\u{FE4F}\u{FE51}\u{FE54}\u{00B7}\u{FF0E}\u{FF01}\u{FF1F}\u{FF61}\u{3002}]";

/// Whether `c` is one of the marks of `PUNCTUATION`.
pub open spec fn is_punctuation(c: char) -> bool {
    PUNCTUATION@.contains(c)
}

/// `PUNCTUATION_CLASS` is a literal class whose members are the marks of
/// `PUNCTUATION`.
pub proof fn lemma_punctuation_class()
    ensures
        is_literal_class(PUNCTUATION_CLASS@),
        class_members(PUNCTUATION_CLASS@) == PUNCTUATION@,
{
    reveal_strlit("\u{FF02}\u{FF03}\u{FF04}\u{FF05}\u{FF06}\u{FF07}\u{FF08}\u{FF09}\u{FF0A}\u{FF0B}\u{FF0C}\u{FF0D}\u{FF0F}\u{FF1A}\u{FF1B}\u{FF1C}\u{FF1D}\u{FF1E}\u{FF20}\u{FF3B}\u{FF3C}\u{FF3D}\u{FF3E}\u{FF3F}\u{FF40}\u{FF5B}\u{FF5C}\u{FF5D}\u{FF5E}\u{FF5F}\u{FF60}\u{FF62}\u{FF63}\u{FF64}\u{3000}\u{3001}\u{3003}\u{3008}\u{3009}\u{300A}\u{300B}\u{300C}\u{300D}\u{300E}\u{300F}\u{3010}\u{3011}\u{3014}\u{3015}\u{3016}\u{3017}\u{3018}\u{3019}\u{301A}\u{301B}\u{301C}\u{301D}\u{301E}\u{301F}\u{3030}\u{303E}\u{303F}\u{2013}\u{2014}\u{2018}\u{2019}\u{201B}\u{201C}\u{201D}\u{201E}\u{201F}\u{2026}\u{2027}\u{FE4F}\u{FE51}\u{FE54}\u{00B7}\u{FF0E}\u{FF01}\u{FF1F}\u{FF61}\u{3002}");
    reveal_strlit("[\u{FF02}\u{FF03}\u{FF04}\u{FF05}\u{FF06}\u{FF07}\u{FF08}\u{FF09}\u{FF0A}\u{FF0B}\u{FF0C}\u{FF0D}\u{FF0F}\u{FF1A}\u{FF1B}\u{FF1C}\u{FF1D}\u{FF1E}\u{FF20}\u{FF3B}\u{FF3C}\u{FF3D}\u{FF3E}\u{FF3F}\u{FF40}\u{FF5B}\u{FF5C}\u{FF5D}\u{FF5E}\u{FF5F}\u{FF60}\u{FF62}\u{FF63}\u{FF64}\u{3000}\u{3001}\u{3003}\u{3008}\u{3009}\u{300A}\u{300B}\u{300C}\u{300D}\u{300E}\u{300F}\u{3010}\u{3011}\u{3014}\u{3015}\u{3016}\u{3017}\u{3018}\u{3019}\u{301A}\u{301B}\u{301C}\u{301D}\u{301E}\u{301F}\u{3030}\u{303E}\u{303F}\u{2013}\u{2014}\u{2018}\u{2019}\u{201B}\u{201C}\u{201D}\u{201E}\u{201F}\u{2026}\u{2027}\u{FE4F}\u{FE51}\u{FE54}\u{00B7}\u{FF0E}\u{FF01}\u{FF1F}\u{FF61}\u{3002}]");
    assert(class_members(PUNCTUATION_CLASS@) =~= PUNCTUATION@);
}

/// No mark of `PUNCTUATION` is an ASCII character or a Chinese character
/// of the block U+4E00 to U+9FFF.
pub proof fn lemma_punctuation_is_not_plain(c: char)
    requires
        is_punctuation(c),
    ensures
        c as u32 > 0x7F,
        !is_ideograph(c),
{
    reveal_strlit("\u{FF02}\u{FF03}\u{FF04}\u{FF05}\u{FF06}\u{FF07}\u{FF08}\u{FF09}\u{FF0A}\u{FF0B}\u{FF0C}\u{FF0D}\u{FF0F}\u{FF1A}\u{FF1B}\u{FF1C}\u{FF1D}\u{FF1E}\u{FF20}\u{FF3B}\u{FF3C}\u{FF3D}\u{FF3E}\u{FF3F}\u{FF40}\u{FF5B}\u{FF5C}\u{FF5D}\u{FF5E}\u{FF5F}\u{FF60}\u{FF62}\u{FF63}\u{FF64}\u{3000}\u{3001}\u{3003}\u{3008}\u{3009}\u{300A}\u{300B}\u{300C}\u{300D}\u{300E}\u{300F}\u{3010}\u{3011}\u{3014}\u{3015}\u{3016}\u{3017}\u{3018}\u{3019}\u{301A}\u{301B}\u{301C}\u{301D}\u{301E}\u{301F}\u{3030}\u{303E}\u{303F}\u{2013}\u{2014}\u{2018}\u{2019}\u{201B}\u{201C}\u{201D}\u{201E}\u{201F}\u{2026}\u{2027}\u{FE4F}\u{FE51}\u{FE54}\u{00B7}\u{FF0E}\u{FF01}\u{FF1F}\u{FF61}\u{3002}");
    let i = choose|i: int| 0 <= i < PUNCTUATION@.len() && PUNCTUATION@[i] == c;
    assert(PUNCTUATION@[i] == c);
}

} // verus!
