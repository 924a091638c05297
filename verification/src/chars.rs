//! Character classification: display width, control characters, whitespace.

use vstd::prelude::*;

verus! {

/// Display width, in terminal columns, that the `unicode_width` tables
/// assign to a character (control characters count as zero columns).
pub uninterp spec fn width_of(c: char) -> nat;

/// Relies on `unicode_width::UnicodeWidthChar::width`: the width of a
/// character depends on the character alone, and the crate's lookup
/// tables assign every character a width of at most 3 columns.
/// A control character (`width` returns `None`) occupies no columns.
#[verifier::external_body]
pub fn char_width(c: char) -> (w: usize)
    ensures
        w as nat == width_of(c),
        w <= 3,
{
    unicode_width::UnicodeWidthChar::width(c).unwrap_or(0)
}

/// The control characters: the Unicode `Cc` category,
/// U+0000..=U+001F and U+007F..=U+009F.
pub open spec fn is_control_char(c: char) -> bool {
    (c as u32) < 0x20 || (0x7f <= c as u32 && c as u32 <= 0x9f)
}

/// Decides membership in the Unicode `Cc` category.
pub fn check_control(c: char) -> (r: bool)
    ensures
        r == is_control_char(c),
{
    let u = c as u32;
    u < 0x20 || (0x7f <= u && u <= 0x9f)
}

/// The characters with the Unicode `White_Space` property.
pub open spec fn is_space_char(c: char) -> bool {
    let u = c as u32;
    ||| u == 0x09
    ||| u == 0x0a
    ||| u == 0x0b
    ||| u == 0x0c
    ||| u == 0x0d
    ||| u == 0x20
    ||| u == 0x85
    ||| u == 0xa0
    ||| u == 0x1680
    ||| (0x2000 <= u && u <= 0x200a)
    ||| u == 0x2028
    ||| u == 0x2029
    ||| u == 0x202f
    ||| u == 0x205f
    ||| u == 0x3000
}

/// Decides the Unicode `White_Space` property.
pub fn check_space(c: char) -> (r: bool)
    ensures
        r == is_space_char(c),
{
    let u = c as u32;
    u == 0x09 || u == 0x0a || u == 0x0b || u == 0x0c || u == 0x0d || u == 0x20 || u == 0x85
        || u == 0xa0 || u == 0x1680 || (0x2000 <= u && u <= 0x200a) || u == 0x2028 || u == 0x2029
        || u == 0x202f || u == 0x205f || u == 0x3000
}

} // verus!
