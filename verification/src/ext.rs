//! The interface this crate needs from the external `encoding_rs` codec,
//! stated as trusted contracts over the crate's own specifications.

use vstd::prelude::*;

use crate::bom::has_utf16be_bom;
use crate::bom::has_utf16le_bom;
use crate::bom::has_utf8_bom;
use crate::label::is_utf7_label_spec;
use crate::text::DecodedText;

verus! {

/// `encoding_rs::Encoding`, the identity of one encoding of the Encoding
/// Standard, held opaquely; the codec owns a static instance per encoding.
#[verifier::external_type_specification]
#[verifier::external_body]
pub struct ExEncoding(encoding_rs::Encoding);

/// Relies on `encoding_rs::Encoding::for_label`, the Encoding Standard's
/// "get an encoding" lookup: it trims the same whitespace set this crate's
/// label parser skips, lowercases ASCII letters, and looks the label up in a
/// table that does not contain "utf-7", so a label that names UTF-7 finds no
/// encoding there.
pub assume_specification[ encoding_rs::Encoding::for_label ](label: &[u8]) -> (r: Option<
    &'static encoding_rs::Encoding,
>)
    ensures
        is_utf7_label_spec(label@) ==> r is None,
;

/// Relies on `encoding_rs::Encoding::for_label_no_replacement`: it returns
/// what `for_label` returns, except `None` for labels of the replacement
/// encoding, so it also finds nothing for a label that names UTF-7.
pub assume_specification[ encoding_rs::Encoding::for_label_no_replacement ](label: &[u8]) -> (r:
    Option<&'static encoding_rs::Encoding>)
    ensures
        is_utf7_label_spec(label@) ==> r is None,
;

/// Relies on `encoding_rs::Encoding::for_bom`: it returns the UTF-8 encoding
/// with length 3 when the buffer starts `EF BB BF`, the UTF-16LE or UTF-16BE
/// encoding with length 2 when it starts `FF FE` or `FE FF`, and `None`
/// otherwise.
pub assume_specification[ encoding_rs::Encoding::for_bom ](buffer: &[u8]) -> (r: Option<
    (&'static encoding_rs::Encoding, usize),
>)
    ensures
        match r {
            Some((encoding, n)) => (has_utf8_bom(buffer@) && n == 3) || (has_utf16le_bom(buffer@)
                && n == 2) || (has_utf16be_bom(buffer@) && n == 2),
            None => !has_utf8_bom(buffer@) && !has_utf16le_bom(buffer@) && !has_utf16be_bom(
                buffer@,
            ),
        },
;

/// Relies on `encoding_rs::Encoding::name`; nothing is assumed of the name.
pub assume_specification[ encoding_rs::Encoding::name ](encoding: &'static encoding_rs::Encoding) -> &'static str;

/// Relies on `encoding_rs::Encoding::is_ascii_compatible`; nothing is
/// assumed of the answer.
pub assume_specification[ encoding_rs::Encoding::is_ascii_compatible ](
    encoding: &'static encoding_rs::Encoding,
) -> bool;

/// Relies on the static `encoding_rs::GBK`, the GBK encoding's identity.
#[verifier::external_body]
pub(crate) fn gbk_encoding() -> &'static encoding_rs::Encoding {
    encoding_rs::GBK
}

/// Relies on the static `encoding_rs::GB18030`, the gb18030 encoding's
/// identity.
#[verifier::external_body]
pub(crate) fn gb18030_encoding() -> &'static encoding_rs::Encoding {
    encoding_rs::GB18030
}

/// Relies on `encoding_rs::Encoding`'s equality, which compares the identity
/// of the static encoding instances; nothing is assumed of the answer.
#[verifier::external_body]
pub(crate) fn encoding_eq(a: &'static encoding_rs::Encoding, b: &'static encoding_rs::Encoding) -> bool {
    a == b
}

/// Relies on `encoding_rs::Encoding::decode_without_bom_handling`, the
/// codec's whole-buffer decode with U+FFFD replacement; nothing is assumed
/// of the text it produces. The bound on the length keeps the codec's own
/// output-capacity computations within `usize`.
#[verifier::external_body]
pub(crate) fn encoding_decode_without_bom_handling<'a>(
    encoding: &'static encoding_rs::Encoding,
    bytes: &'a [u8],
) -> (DecodedText<'a>, bool)
    requires
        bytes@.len() <= usize::MAX / 4,
{
    match encoding.decode_without_bom_handling(bytes) {
        (std::borrow::Cow::Borrowed(s), had_errors) => (DecodedText::Borrowed(s), had_errors),
        (std::borrow::Cow::Owned(s), had_errors) => (DecodedText::Owned(s), had_errors),
    }
}

/// Relies on `encoding_rs::Encoding::decode_with_bom_removal`, the codec's
/// whole-buffer decode that strips this encoding's own leading BOM; nothing
/// is assumed of the text it produces. The bound on the length keeps the
/// codec's own output-capacity computations within `usize`.
#[verifier::external_body]
pub(crate) fn encoding_decode_with_bom_removal<'a>(
    encoding: &'static encoding_rs::Encoding,
    bytes: &'a [u8],
) -> (DecodedText<'a>, bool)
    requires
        bytes@.len() <= usize::MAX / 4,
{
    match encoding.decode_with_bom_removal(bytes) {
        (std::borrow::Cow::Borrowed(s), had_errors) => (DecodedText::Borrowed(s), had_errors),
        (std::borrow::Cow::Owned(s), had_errors) => (DecodedText::Owned(s), had_errors),
    }
}

} // verus!
