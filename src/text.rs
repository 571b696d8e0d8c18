//! Text helpers shared by the services: character classes, trimming and
//! building strings.

use vstd::prelude::*;
use vstd::string::*;
use vstd::utf8::encode_utf8;

verus! {

/// What `char::is_alphanumeric` answers for a character (Unicode classes).
pub uninterp spec fn alphanumeric(c: char) -> bool;

/// An ASCII letter or digit.
pub open spec fn ascii_alphanumeric(c: char) -> bool {
    ||| (97 <= c as u32 && c as u32 <= 122)
    ||| (65 <= c as u32 && c as u32 <= 90)
    ||| (48 <= c as u32 && c as u32 <= 57)
}

/// Relies on `char::is_alphanumeric`: on ASCII it holds exactly of letters and digits.
#[verifier::external_body]
pub(crate) fn char_is_alphanumeric(c: char) -> (r: bool)
    ensures
        r == alphanumeric(c),
        (c as u32) < 128 ==> (r == ascii_alphanumeric(c)),
{
    c.is_alphanumeric()
}

/// A display name: 1 to 16 bytes of UTF-8, every character alphanumeric.
pub open spec fn valid_name(s: Seq<char>) -> bool {
    &&& 1 <= encode_utf8(s).len() <= 16
    &&& forall|i: int| 0 <= i < s.len() ==> alphanumeric(#[trigger] s[i])
}

/// Tells whether `name` may be chosen as a display name.
pub fn is_valid_name(name: &str) -> (r: bool)
    ensures
        r == valid_name(name@),
{
    let n: usize = name.as_bytes().len();
    if n < 1 || n > 16 {
        return false;
    }
    let count: usize = name.unicode_len();
    let mut i: usize = 0;
    while i < count
        invariant
            count == name@.len(),
            i <= count,
            1 <= encode_utf8(name@).len() <= 16,
            forall|k: int| 0 <= k < i ==> alphanumeric(#[trigger] name@[k]),
        decreases count - i,
    {
        let c = name.get_char(i);
        if !char_is_alphanumeric(c) {
            return false;
        }
        i = i + 1;
    }
    true
}

/// The character views of a sequence of strings.
pub open spec fn views(v: Seq<String>) -> Seq<Seq<char>> {
    v.map_values(|s: String| s@)
}

/// `items` written one after the other with `sep` between each two.
pub open spec fn joined(items: Seq<Seq<char>>, sep: Seq<char>) -> Seq<char>
    decreases items.len(),
{
    if items.len() == 0 {
        Seq::empty()
    } else if items.len() == 1 {
        items[0]
    } else {
        joined(items.drop_last(), sep) + sep + items.last()
    }
}

/// Relies on `itertools::join`: the items' text in order, `sep` between each two.
#[verifier::external_body]
pub(crate) fn join_with(items: &Vec<String>, sep: &str) -> (r: String)
    ensures
        r@ == joined(views(items@), sep@),
{
    itertools::join(items.iter(), sep)
}

/// What `str::trim` leaves of a text (whitespace in the Unicode sense).
pub uninterp spec fn trimmed(s: Seq<char>) -> Seq<char>;

/// Relies on `str::trim`: the text without leading and trailing whitespace.
#[verifier::external_body]
pub(crate) fn trim_text(s: &str) -> (r: String)
    ensures
        r@ == trimmed(s@),
{
    String::from(s.trim())
}

/// Relies on `String::push`: appends one character.
#[verifier::external_body]
pub(crate) fn push_char(s: &mut String, c: char)
    ensures
        final(s)@ == old(s)@.push(c),
{
    s.push(c)
}

/// Relies on `char::from(u8)`: the character with the byte's code point.
#[verifier::external_body]
pub(crate) fn byte_char(b: u8) -> (c: char)
    ensures
        c as u32 == b as u32,
{
    char::from(b)
}

/// `a` followed by `b`, as a new string.
pub(crate) fn concat_str(a: &str, b: &str) -> (r: String)
    ensures
        r@ == a@ + b@,
{
    let mut s = String::from_str(a);
    s.append(b);
    s
}

} // verus!
