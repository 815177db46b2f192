//! The decimal-digit class of the chapter-URL grammar: the characters of
//! Unicode general category Nd (Decimal_Number), Unicode 16.0.

use vstd::prelude::*;

verus! {

/// `c` is a Unicode decimal digit (general category Nd), given as the
/// ranges of code points that the category covers.
pub open spec fn is_decimal_digit(c: char) -> bool {
    let n = c as u32;
    (0x30 <= n && n <= 0x39)
        || (0x660 <= n && n <= 0x669)
        || (0x6F0 <= n && n <= 0x6F9)
        || (0x7C0 <= n && n <= 0x7C9)
        || (0x966 <= n && n <= 0x96F)
        || (0x9E6 <= n && n <= 0x9EF)
        || (0xA66 <= n && n <= 0xA6F)
        || (0xAE6 <= n && n <= 0xAEF)
        || (0xB66 <= n && n <= 0xB6F)
        || (0xBE6 <= n && n <= 0xBEF)
        || (0xC66 <= n && n <= 0xC6F)
        || (0xCE6 <= n && n <= 0xCEF)
        || (0xD66 <= n && n <= 0xD6F)
        || (0xDE6 <= n && n <= 0xDEF)
        || (0xE50 <= n && n <= 0xE59)
        || (0xED0 <= n && n <= 0xED9)
        || (0xF20 <= n && n <= 0xF29)
        || (0x1040 <= n && n <= 0x1049)
        || (0x1090 <= n && n <= 0x1099)
        || (0x17E0 <= n && n <= 0x17E9)
        || (0x1810 <= n && n <= 0x1819)
        || (0x1946 <= n && n <= 0x194F)
        || (0x19D0 <= n && n <= 0x19D9)
        || (0x1A80 <= n && n <= 0x1A89)
        || (0x1A90 <= n && n <= 0x1A99)
        || (0x1B50 <= n && n <= 0x1B59)
        || (0x1BB0 <= n && n <= 0x1BB9)
        || (0x1C40 <= n && n <= 0x1C49)
        || (0x1C50 <= n && n <= 0x1C59)
        || (0xA620 <= n && n <= 0xA629)
        || (0xA8D0 <= n && n <= 0xA8D9)
        || (0xA900 <= n && n <= 0xA909)
        || (0xA9D0 <= n && n <= 0xA9D9)
        || (0xA9F0 <= n && n <= 0xA9F9)
        || (0xAA50 <= n && n <= 0xAA59)
        || (0xABF0 <= n && n <= 0xABF9)
        || (0xFF10 <= n && n <= 0xFF19)
        || (0x104A0 <= n && n <= 0x104A9)
        || (0x10D30 <= n && n <= 0x10D39)
        || (0x10D40 <= n && n <= 0x10D49)
        || (0x11066 <= n && n <= 0x1106F)
        || (0x110F0 <= n && n <= 0x110F9)
        || (0x11136 <= n && n <= 0x1113F)
        || (0x111D0 <= n && n <= 0x111D9)
        || (0x112F0 <= n && n <= 0x112F9)
        || (0x11450 <= n && n <= 0x11459)
        || (0x114D0 <= n && n <= 0x114D9)
        || (0x11650 <= n && n <= 0x11659)
        || (0x116C0 <= n && n <= 0x116C9)
        || (0x116D0 <= n && n <= 0x116E3)
        || (0x11730 <= n && n <= 0x11739)
        || (0x118E0 <= n && n <= 0x118E9)
        || (0x11950 <= n && n <= 0x11959)
        || (0x11BF0 <= n && n <= 0x11BF9)
        || (0x11C50 <= n && n <= 0x11C59)
        || (0x11D50 <= n && n <= 0x11D59)
        || (0x11DA0 <= n && n <= 0x11DA9)
        || (0x11F50 <= n && n <= 0x11F59)
        || (0x16130 <= n && n <= 0x16139)
        || (0x16A60 <= n && n <= 0x16A69)
        || (0x16AC0 <= n && n <= 0x16AC9)
        || (0x16B50 <= n && n <= 0x16B59)
        || (0x16D70 <= n && n <= 0x16D79)
        || (0x1CCF0 <= n && n <= 0x1CCF9)
        || (0x1D7CE <= n && n <= 0x1D7FF)
        || (0x1E140 <= n && n <= 0x1E149)
        || (0x1E2F0 <= n && n <= 0x1E2F9)
        || (0x1E4F0 <= n && n <= 0x1E4F9)
        || (0x1E5F1 <= n && n <= 0x1E5FA)
        || (0x1E950 <= n && n <= 0x1E959)
        || (0x1FBF0 <= n && n <= 0x1FBF9)
}

/// Among ASCII characters, exactly `0` to `9` are decimal digits.
pub proof fn law_ascii_digits(c: char)
    ensures
        0x30 <= (c as u32) <= 0x39 ==> is_decimal_digit(c),
        (c as u32) < 0x80 && !(0x30 <= (c as u32) <= 0x39) ==> !is_decimal_digit(c),
{
}

/// Tells whether `c` is a Unicode decimal digit.
pub fn decimal_digit(c: char) -> (r: bool)
    ensures
        r == is_decimal_digit(c),
{
    let n = c as u32;
    (0x30 <= n && n <= 0x39)
        || (0x660 <= n && n <= 0x669)
        || (0x6F0 <= n && n <= 0x6F9)
        || (0x7C0 <= n && n <= 0x7C9)
        || (0x966 <= n && n <= 0x96F)
        || (0x9E6 <= n && n <= 0x9EF)
        || (0xA66 <= n && n <= 0xA6F)
        || (0xAE6 <= n && n <= 0xAEF)
        || (0xB66 <= n && n <= 0xB6F)
        || (0xBE6 <= n && n <= 0xBEF)
        || (0xC66 <= n && n <= 0xC6F)
        || (0xCE6 <= n && n <= 0xCEF)
        || (0xD66 <= n && n <= 0xD6F)
        || (0xDE6 <= n && n <= 0xDEF)
        || (0xE50 <= n && n <= 0xE59)
        || (0xED0 <= n && n <= 0xED9)
        || (0xF20 <= n && n <= 0xF29)
        || (0x1040 <= n && n <= 0x1049)
        || (0x1090 <= n && n <= 0x1099)
        || (0x17E0 <= n && n <= 0x17E9)
        || (0x1810 <= n && n <= 0x1819)
        || (0x1946 <= n && n <= 0x194F)
        || (0x19D0 <= n && n <= 0x19D9)
        || (0x1A80 <= n && n <= 0x1A89)
        || (0x1A90 <= n && n <= 0x1A99)
        || (0x1B50 <= n && n <= 0x1B59)
        || (0x1BB0 <= n && n <= 0x1BB9)
        || (0x1C40 <= n && n <= 0x1C49)
        || (0x1C50 <= n && n <= 0x1C59)
        || (0xA620 <= n && n <= 0xA629)
        || (0xA8D0 <= n && n <= 0xA8D9)
        || (0xA900 <= n && n <= 0xA909)
        || (0xA9D0 <= n && n <= 0xA9D9)
        || (0xA9F0 <= n && n <= 0xA9F9)
        || (0xAA50 <= n && n <= 0xAA59)
        || (0xABF0 <= n && n <= 0xABF9)
        || (0xFF10 <= n && n <= 0xFF19)
        || (0x104A0 <= n && n <= 0x104A9)
        || (0x10D30 <= n && n <= 0x10D39)
        || (0x10D40 <= n && n <= 0x10D49)
        || (0x11066 <= n && n <= 0x1106F)
        || (0x110F0 <= n && n <= 0x110F9)
        || (0x11136 <= n && n <= 0x1113F)
        || (0x111D0 <= n && n <= 0x111D9)
        || (0x112F0 <= n && n <= 0x112F9)
        || (0x11450 <= n && n <= 0x11459)
        || (0x114D0 <= n && n <= 0x114D9)
        || (0x11650 <= n && n <= 0x11659)
        || (0x116C0 <= n && n <= 0x116C9)
        || (0x116D0 <= n && n <= 0x116E3)
        || (0x11730 <= n && n <= 0x11739)
        || (0x118E0 <= n && n <= 0x118E9)
        || (0x11950 <= n && n <= 0x11959)
        || (0x11BF0 <= n && n <= 0x11BF9)
        || (0x11C50 <= n && n <= 0x11C59)
        || (0x11D50 <= n && n <= 0x11D59)
        || (0x11DA0 <= n && n <= 0x11DA9)
        || (0x11F50 <= n && n <= 0x11F59)
        || (0x16130 <= n && n <= 0x16139)
        || (0x16A60 <= n && n <= 0x16A69)
        || (0x16AC0 <= n && n <= 0x16AC9)
        || (0x16B50 <= n && n <= 0x16B59)
        || (0x16D70 <= n && n <= 0x16D79)
        || (0x1CCF0 <= n && n <= 0x1CCF9)
        || (0x1D7CE <= n && n <= 0x1D7FF)
        || (0x1E140 <= n && n <= 0x1E149)
        || (0x1E2F0 <= n && n <= 0x1E2F9)
        || (0x1E4F0 <= n && n <= 0x1E4F9)
        || (0x1E5F1 <= n && n <= 0x1E5FA)
        || (0x1E950 <= n && n <= 0x1E959)
        || (0x1FBF0 <= n && n <= 0x1FBF9)
}

} // verus!
