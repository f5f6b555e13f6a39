//! The result of a decode: either a view over the original input buffer
//! (when no transformation was needed) or an owned buffer built during
//! decoding.

use vstd::prelude::*;

verus! {

/// Decoded text, either borrowed from the input buffer (the input was already
/// valid text and is returned without copying) or owned (a new buffer was
/// built during decoding).
pub enum DecodedText<'a> {
    Borrowed(&'a str),
    Owned(String),
}

impl<'a> View for DecodedText<'a> {
    type V = Seq<char>;

    open spec fn view(&self) -> Seq<char> {
        match self {
            DecodedText::Borrowed(s) => s@,
            DecodedText::Owned(s) => s@,
        }
    }
}

impl<'a> DecodedText<'a> {
    /// The decoded characters as a string slice.
    pub fn as_str(&self) -> (r: &str)
        ensures
            r@ == self@,
    {
        match self {
            DecodedText::Borrowed(s) => *s,
            DecodedText::Owned(s) => s.as_str(),
        }
    }
}

/// Relies on `String::with_capacity`: returns an empty string (the capacity
/// is only an allocation hint).
#[verifier::external_body]
pub(crate) fn string_with_capacity(capacity: usize) -> (r: String)
    ensures
        r@ == Seq::<char>::empty(),
{
    String::with_capacity(capacity)
}

/// Relies on `String::push`: appends exactly the given character.
#[verifier::external_body]
pub(crate) fn push_char(out: &mut String, c: char)
    ensures
        final(out)@ == old(out)@.push(c),
{
    out.push(c);
}

/// Relies on `String::push_str`: appends exactly the characters of `suffix`.
#[verifier::external_body]
pub(crate) fn push_str_suffix(out: &mut String, suffix: &str)
    ensures
        final(out)@ == old(out)@ + suffix@,
{
    out.push_str(suffix);
}

/// The characters denoted by a sequence of ASCII bytes, each byte standing
/// for the code point of the same value.
pub open spec fn ascii_chars(s: Seq<u8>) -> Seq<char> {
    Seq::new(s.len(), |i: int| s[i] as char)
}

/// Relies on `core::str::from_utf8`: bytes below 0x80 are valid UTF-8, and
/// each such byte is the code point of the same value, so the call cannot
/// fail and the view of the result is exactly those code points.
#[verifier::external_body]
pub(crate) fn ascii_as_str<'a>(bytes: &'a [u8]) -> (r: &'a str)
    requires
        forall|j: int| 0 <= j < bytes@.len() ==> bytes@[j] < 0x80,
    ensures
        r@ == ascii_chars(bytes@),
{
    core::str::from_utf8(bytes).unwrap()
}

} // verus!
