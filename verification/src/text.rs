//! Character classes and character-sequence helpers shared by the
//! prompt, bridge and chunking modules.

use vstd::prelude::*;

verus! {

/// Unicode general category `Cc` (the control characters), as
/// `char::is_control` classifies them.
pub open spec fn is_control(c: char) -> bool {
    c <= '\u{1f}' || ('\u{7f}' <= c && c <= '\u{9f}')
}

/// The Unicode `White_Space` property, as `char::is_whitespace` and
/// `str::trim` / `str::split_whitespace` classify characters.
pub open spec fn is_whitespace(c: char) -> bool {
    ||| ('\u{9}' <= c && c <= '\u{d}')
    ||| c == ' '
    ||| c == '\u{85}'
    ||| c == '\u{a0}'
    ||| c == '\u{1680}'
    ||| ('\u{2000}' <= c && c <= '\u{200a}')
    ||| c == '\u{2028}'
    ||| c == '\u{2029}'
    ||| c == '\u{202f}'
    ||| c == '\u{205f}'
    ||| c == '\u{3000}'
}

/// The characters `is_whitespace` admits are exactly the 25 code points
/// of the Unicode `White_Space` property (PropList.txt): the controls
/// U+0009 to U+000D, the space, U+0085, the no-break space, the Ogham
/// space mark, the spaces U+2000 to U+200A, the line and paragraph
/// separators, U+202F, U+205F and the ideographic space.
pub proof fn law_white_space_is_unicode(c: char)
    ensures
        is_whitespace(c) <==> {
            let n = c as u32;
            n == 0x0009
            || n == 0x000a
            || n == 0x000b
            || n == 0x000c
            || n == 0x000d
            || n == 0x0020
            || n == 0x0085
            || n == 0x00a0
            || n == 0x1680
            || n == 0x2000
            || n == 0x2001
            || n == 0x2002
            || n == 0x2003
            || n == 0x2004
            || n == 0x2005
            || n == 0x2006
            || n == 0x2007
            || n == 0x2008
            || n == 0x2009
            || n == 0x200a
            || n == 0x2028
            || n == 0x2029
            || n == 0x202f
            || n == 0x205f
            || n == 0x3000
        },
{
}

/// The control characters are the code points below U+0020 and those
/// from U+007F to U+009F (general category `Cc`).
pub proof fn law_control_is_unicode_cc(c: char)
    ensures
        is_control(c) <==> ((c as u32) < 0x20 || (0x7f <= (c as u32) && (c as u32) < 0xa0)),
{
}

/// ASCII letters and digits.
pub open spec fn is_ascii_alphanumeric(c: char) -> bool {
    ||| ('0' <= c && c <= '9')
    ||| ('A' <= c && c <= 'Z')
    ||| ('a' <= c && c <= 'z')
}

pub fn char_is_control(c: char) -> (r: bool)
    ensures
        r == is_control(c),
{
    c <= '\u{1f}' || ('\u{7f}' <= c && c <= '\u{9f}')
}

pub fn char_is_whitespace(c: char) -> (r: bool)
    ensures
        r == is_whitespace(c),
{
    ('\u{9}' <= c && c <= '\u{d}') || c == ' ' || c == '\u{85}' || c == '\u{a0}' || c
        == '\u{1680}' || ('\u{2000}' <= c && c <= '\u{200a}') || c == '\u{2028}' || c
        == '\u{2029}' || c == '\u{202f}' || c == '\u{205f}' || c == '\u{3000}'
}

pub fn char_is_ascii_alphanumeric(c: char) -> (r: bool)
    ensures
        r == is_ascii_alphanumeric(c),
{
    ('0' <= c && c <= '9') || ('A' <= c && c <= 'Z') || ('a' <= c && c <= 'z')
}

/// The characters of `s`, in order.
pub fn str_chars(s: &str) -> (v: Vec<char>)
    ensures
        v@ == s@,
{
    let mut v: Vec<char> = Vec::new();
    for c in it: s.chars()
        invariant
            it.seq() == s@,
            v@ == it.seq().take(it.index() as int),
    {
        v.push(c);
    }
    v
}

/// std's `String::from_iter` on a vector of characters: the string made
/// of those characters, in order.
#[verifier::external_body]
pub(crate) fn string_from_chars(v: Vec<char>) -> (s: String)
    ensures
        s@ == v@,
{
    String::from_iter(v)
}

} // verus!
