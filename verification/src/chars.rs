//! Character classification and string/character-vector conversions.
//!
//! The sanitization pipeline works on `Vec<char>` so that every step is a
//! plain loop over characters. This module supplies the character predicates
//! the pipeline filters by, and the conversions between `String` and
//! `Vec<char>`.

use vstd::prelude::*;
use vstd::string::StrSliceExecFns;

verus! {

/// The Unicode `White_Space` code points, written out. This is the set that
/// `char::is_whitespace` recognizes, so the predicate can be both specified
/// and executed without leaving verified code.
pub open spec fn is_white(c: char) -> bool {
    let u = c as u32;
    ||| u == 0x09
    ||| u == 0x0A
    ||| u == 0x0B
    ||| u == 0x0C
    ||| u == 0x0D
    ||| u == 0x20
    ||| u == 0x85
    ||| u == 0xA0
    ||| u == 0x1680
    ||| (0x2000 <= u && u <= 0x200A)
    ||| u == 0x2028
    ||| u == 0x2029
    ||| u == 0x202F
    ||| u == 0x205F
    ||| u == 0x3000
}

/// Executable counterpart of [`is_white`].
pub fn char_is_white(c: char) -> (b: bool)
    ensures
        b == is_white(c),
{
    let u = c as u32;
    (u == 0x09 || u == 0x0A || u == 0x0B || u == 0x0C || u == 0x0D || u == 0x20) || (u == 0x85
        || u == 0xA0 || u == 0x1680) || (0x2000 <= u && u <= 0x200A) || (u == 0x2028 || u == 0x2029
        || u == 0x202F || u == 0x205F || u == 0x3000)
}

/// Whether `c` has the Unicode `Alphabetic` property. The set is far too
/// large to write out, so it stays abstract and is decided at run time by
/// `char::is_alphabetic`.
pub uninterp spec fn is_letter(c: char) -> bool;

/// Whether `c` is in one of the Unicode number categories. Abstract for the
/// same reason as [`is_letter`]; decided at run time by `char::is_numeric`.
pub uninterp spec fn is_digit(c: char) -> bool;

/// Relied upon for [`is_letter`]: `char::is_alphabetic` returns whether the
/// character has the Unicode `Alphabetic` property.
pub assume_specification[ char::is_alphabetic ](c: char) -> (b: bool)
    ensures
        b == is_letter(c),
;

/// Relied upon for [`is_digit`]: `char::is_numeric` returns whether the
/// character's Unicode general category is one of Nd, Nl, No.
pub assume_specification[ char::is_numeric ](c: char) -> (b: bool)
    ensures
        b == is_digit(c),
;

/// Whitespace unification: every whitespace character except the line feed
/// becomes a plain space; everything else is untouched.
pub open spec fn unify_char(c: char) -> char {
    if c == '\n' {
        '\n'
    } else if is_white(c) {
        ' '
    } else {
        c
    }
}

/// The comma forms the sanitizer keeps: comma, fullwidth comma, ideographic
/// comma.
pub open spec fn is_comma(c: char) -> bool {
    c == ',' || c == '\u{FF0C}' || c == '\u{3001}'
}

/// The period forms the sanitizer keeps: full stop, ideographic full stop,
/// fullwidth full stop.
pub open spec fn is_period(c: char) -> bool {
    c == '.' || c == '\u{3002}' || c == '\u{FF0E}'
}

/// The sanitizer's whitelist: letters, digits, space, line feed, the comma
/// forms and the period forms. Separator spaces other than the plain space
/// do not need their own case here because the pipeline has already unified
/// every whitespace character except line feed into a plain space by the
/// time this predicate is applied.
pub open spec fn keeps_char(c: char) -> bool {
    ||| is_letter(c)
    ||| is_digit(c)
    ||| c == ' '
    ||| c == '\n'
    ||| is_comma(c)
    ||| is_period(c)
}

/// Executable counterpart of [`is_comma`].
pub fn char_is_comma(c: char) -> (b: bool)
    ensures
        b == is_comma(c),
{
    c == ',' || c == '\u{FF0C}' || c == '\u{3001}'
}

/// Executable counterpart of [`is_period`].
pub fn char_is_period(c: char) -> (b: bool)
    ensures
        b == is_period(c),
{
    c == '.' || c == '\u{3002}' || c == '\u{FF0E}'
}

/// Executable counterpart of [`keeps_char`].
pub fn char_keeps(c: char) -> (b: bool)
    ensures
        b == keeps_char(c),
{
    c.is_alphabetic() || c.is_numeric() || c == ' ' || c == '\n' || char_is_comma(c)
        || char_is_period(c)
}

/// Width in bytes of the UTF-8 encoding of a character.
pub open spec fn utf8_width(c: char) -> nat {
    if (c as u32) < 0x80 {
        1
    } else if (c as u32) < 0x800 {
        2
    } else if (c as u32) < 0x10000 {
        3
    } else {
        4
    }
}

/// Executable counterpart of [`utf8_width`].
pub fn char_utf8_width(c: char) -> (w: u8)
    ensures
        w as nat == utf8_width(c),
{
    let u = c as u32;
    if u < 0x80 {
        1
    } else if u < 0x800 {
        2
    } else if u < 0x10000 {
        3
    } else {
        4
    }
}

/// Collects the characters of a string slice into a vector.
pub fn str_chars(s: &str) -> (r: Vec<char>)
    ensures
        r@ == s@,
{
    let n = s.unicode_len();
    let mut r: Vec<char> = Vec::new();
    let mut i: usize = 0;
    while i < n
        invariant
            i <= n,
            n == s@.len(),
            r@ == s@.take(i as int),
        decreases n - i,
    {
        let c = s.get_char(i);
        r.push(c);
        proof {
            assert(s@.take(i as int).push(s@[i as int]) =~= s@.take(i + 1));
        }
        i = i + 1;
    }
    proof {
        assert(s@.take(n as int) =~= s@);
    }
    r
}

/// Relies on `String::push`: appends one character to the string.
#[verifier::external_body]
pub(crate) fn push_char(s: &mut String, c: char)
    ensures
        final(s)@ == old(s)@.push(c),
{
    s.push(c);
}

/// Builds a string from a vector of characters.
pub fn chars_to_string(v: &Vec<char>) -> (s: String)
    ensures
        s@ == v@,
{
    let mut s = String::new();
    let mut i: usize = 0;
    while i < v.len()
        invariant
            i <= v.len(),
            s@ == v@.take(i as int),
        decreases v.len() - i,
    {
        push_char(&mut s, v[i]);
        proof {
            assert(v@.take(i as int).push(v@[i as int]) =~= v@.take(i + 1));
        }
        i = i + 1;
    }
    proof {
        assert(v@.take(v@.len() as int) =~= v@);
    }
    s
}

/// Compares two string slices character by character.
pub fn str_eq(a: &str, b: &str) -> (r: bool)
    ensures
        r == (a@ == b@),
{
    let va = str_chars(a);
    let vb = str_chars(b);
    if va.len() != vb.len() {
        return false;
    }
    let mut i: usize = 0;
    while i < va.len()
        invariant
            i <= va.len(),
            va.len() == vb.len(),
            va@ == a@,
            vb@ == b@,
            forall|j: int| 0 <= j < i ==> va@[j] == vb@[j],
        decreases va.len() - i,
    {
        if va[i] != vb[i] {
            return false;
        }
        i = i + 1;
    }
    proof {
        assert(a@ =~= b@);
    }
    true
}

} // verus!
