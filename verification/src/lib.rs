//! Decoding for character encodings that occur in email: UTF-7 (decoded by
//! this crate's own verified state machine) together with the encodings of
//! the Encoding Standard (decoded by the external `encoding_rs` codec).
//!
//! A [`Charset`] is either UTF-7 or a wrapped `encoding_rs` encoding. It is
//! resolved from a protocol label or from a byte-order mark, and decodes a
//! complete byte buffer to text, replacing malformed sequences with U+FFFD.

use vstd::prelude::*;

pub mod bom;
pub mod ext;
pub mod label;
pub mod text;
pub mod utf7;

verus! {

use encoding_rs::Encoding;

use crate::bom::has_any_bom;
use crate::bom::has_utf8_bom;
use crate::ext::encoding_decode_with_bom_removal;
use crate::ext::encoding_decode_without_bom_handling;
use crate::ext::encoding_eq;
use crate::ext::gb18030_encoding;
use crate::ext::gbk_encoding;
use crate::label::is_utf7_label;
use crate::label::is_utf7_label_spec;
use crate::text::DecodedText;
use crate::utf7::decode_utf7;
use crate::utf7::is_direct_byte;
use crate::utf7::utf7_decoded;

/// A character encoding suitable for decoding email: either an encoding of
/// the Encoding Standard or UTF-7.
///
/// Instances can be compared with `==`; `Charset` is `Copy` and is meant to
/// be passed by value.
#[derive(PartialEq, Debug, Copy, Clone, Hash)]
pub struct Charset {
    variant: VariantCharset,
}

#[derive(PartialEq, Debug, Copy, Clone, Hash)]
enum VariantCharset {
    Utf7,
    Encoding(&'static Encoding),
}

impl Charset {
    /// Whether this charset is UTF-7 (rather than a wrapped encoding of the
    /// external codec).
    pub closed spec fn is_utf7(self) -> bool {
        self.variant is Utf7
    }

    /// The UTF-7 charset value.
    pub closed spec fn utf7_spec() -> Charset {
        Charset { variant: VariantCharset::Utf7 }
    }

    /// The UTF-7 charset.
    pub fn utf7() -> (r: Charset)
        ensures
            r == Charset::utf7_spec(),
            r.is_utf7(),
    {
        Charset { variant: VariantCharset::Utf7 }
    }

    /// Implements the Encoding Standard's "get an encoding" algorithm with
    /// the label "utf-7" added to the set of recognized labels: the matching
    /// charset, or `None` when no label matches.
    pub fn for_label(label: &[u8]) -> (r: Option<Charset>)
        ensures
            is_utf7_label_spec(label@) ==> r == Some(Charset::utf7_spec()),
            r matches Some(c) ==> (c.is_utf7() <==> is_utf7_label_spec(label@)),
            r is None ==> !is_utf7_label_spec(label@),
    {
        if let Some(encoding) = Encoding::for_label(label) {
            Some(Charset::for_encoding(encoding))
        } else if is_utf7_label(label) {
            Some(Charset::utf7())
        } else {
            None
        }
    }

    /// Behaves as `for_label`, except that a label of the replacement
    /// pseudo-encoding reports no match, for callers that must treat such
    /// labels as fatal rather than substitutable.
    pub fn for_label_no_replacement(label: &[u8]) -> (r: Option<Charset>)
        ensures
            is_utf7_label_spec(label@) ==> r == Some(Charset::utf7_spec()),
            r matches Some(c) ==> (c.is_utf7() <==> is_utf7_label_spec(label@)),
            r is None ==> !is_utf7_label_spec(label@),
    {
        if let Some(encoding) = Encoding::for_label_no_replacement(label) {
            Some(Charset::for_encoding(encoding))
        } else if is_utf7_label(label) {
            Some(Charset::utf7())
        } else {
            None
        }
    }

    /// Wraps an encoding of the external codec. GBK is unified with gb18030,
    /// since the two decode the same and `Charset` only supports decoding.
    pub fn for_encoding(encoding: &'static Encoding) -> (r: Charset)
        ensures
            !r.is_utf7(),
    {
        let enc = if encoding_eq(encoding, gbk_encoding()) {
            gb18030_encoding()
        } else {
            encoding
        };
        Charset { variant: VariantCharset::Encoding(enc) }
    }

    /// Performs non-incremental BOM sniffing on the start of the buffer:
    /// `EF BB BF` is the UTF-8 BOM (length 3), `FF FE` the UTF-16LE BOM and
    /// `FE FF` the UTF-16BE BOM (length 2); anything else is no match. UTF-7
    /// defines no BOM, so a match is always a wrapped encoding.
    pub fn for_bom(buffer: &[u8]) -> (r: Option<(Charset, usize)>)
        ensures
            r is Some <==> has_any_bom(buffer@),
            r matches Some((c, n)) ==> !c.is_utf7() && n <= buffer@.len() && ((has_utf8_bom(
                buffer@,
            ) && n == 3) || (!has_utf8_bom(buffer@) && n == 2)),
    {
        if let Some((encoding, length)) = Encoding::for_bom(buffer) {
            Some((Charset::for_encoding(encoding), length))
        } else {
            None
        }
    }

    /// Returns the name of this encoding; `"UTF-7"` for the UTF-7 charset.
    pub fn name(self) -> (r: &'static str)
        ensures
            self.is_utf7() ==> r@ == "UTF-7"@,
    {
        match self.variant {
            VariantCharset::Encoding(encoding) => encoding.name(),
            VariantCharset::Utf7 => "UTF-7",
        }
    }

    /// Checks whether the bytes 0x00..=0x7F map exclusively to the
    /// characters U+0000..=U+007F and vice versa; false for UTF-7, whose
    /// shifted runs give ASCII bytes other meanings.
    pub fn is_ascii_compatible(self) -> (r: bool)
        ensures
            self.is_utf7() ==> r == false,
    {
        match self.variant {
            VariantCharset::Encoding(encoding) => encoding.is_ascii_compatible(),
            VariantCharset::Utf7 => false,
        }
    }

    /// Decodes a complete buffer with BOM sniffing: a leading byte-order
    /// mark overrides this charset and is stripped before decoding. The
    /// second item of the result is the charset actually used; the third
    /// reports whether malformed sequences were replaced with U+FFFD.
    pub fn decode<'a>(self, bytes: &'a [u8]) -> (r: (DecodedText<'a>, Charset, bool))
        requires
            bytes@.len() <= usize::MAX / 4,
        ensures
            !has_any_bom(bytes@) ==> r.1 == self,
            has_any_bom(bytes@) ==> !r.1.is_utf7(),
            !has_any_bom(bytes@) && self.is_utf7() ==> r.0@ == utf7_decoded(bytes@).0 && r.2
                == utf7_decoded(bytes@).1,
            self.is_utf7() && (forall|j: int|
                0 <= j < bytes@.len() ==> is_direct_byte(#[trigger] bytes@[j])) ==> (
            r.0 is Borrowed && !r.2),
    {
        proof {
            if bytes@.len() > 0 && is_direct_byte(bytes@[0]) {
                assert(!has_any_bom(bytes@));
            }
        }
        match Charset::for_bom(bytes) {
            Some((charset, bom_length)) => {
                let without_bom = &bytes[bom_length..bytes.len()];
                let (text, had_errors) = charset.decode_without_bom_handling(without_bom);
                (text, charset, had_errors)
            },
            None => {
                let (text, had_errors) = self.decode_without_bom_handling(bytes);
                (text, self, had_errors)
            },
        }
    }

    /// Decodes a complete buffer with BOM removal: the wrapped codec strips
    /// its own encoding's BOM; UTF-7 defines no BOM, so for the UTF-7
    /// charset this decodes the whole buffer.
    pub fn decode_with_bom_removal<'a>(self, bytes: &'a [u8]) -> (r: (DecodedText<'a>, bool))
        requires
            bytes@.len() <= usize::MAX / 4,
        ensures
            self.is_utf7() ==> r.0@ == utf7_decoded(bytes@).0 && r.1 == utf7_decoded(bytes@).1,
            self.is_utf7() && (forall|j: int|
                0 <= j < bytes@.len() ==> is_direct_byte(#[trigger] bytes@[j])) ==> (
            r.0 is Borrowed && !r.1),
    {
        match self.variant {
            VariantCharset::Encoding(encoding) => encoding_decode_with_bom_removal(
                encoding,
                bytes,
            ),
            VariantCharset::Utf7 => decode_utf7(bytes),
        }
    }

    /// Decodes a complete buffer without any BOM handling: a leading
    /// byte-order mark, if present, is decoded like any other input.
    pub fn decode_without_bom_handling<'a>(self, bytes: &'a [u8]) -> (r: (DecodedText<'a>, bool))
        requires
            bytes@.len() <= usize::MAX / 4,
        ensures
            self.is_utf7() ==> r.0@ == utf7_decoded(bytes@).0 && r.1 == utf7_decoded(bytes@).1,
            self.is_utf7() && (forall|j: int|
                0 <= j < bytes@.len() ==> is_direct_byte(#[trigger] bytes@[j])) ==> (
            r.0 is Borrowed && !r.1),
    {
        match self.variant {
            VariantCharset::Encoding(encoding) => encoding_decode_without_bom_handling(
                encoding,
                bytes,
            ),
            VariantCharset::Utf7 => decode_utf7(bytes),
        }
    }
}

} // verus!
