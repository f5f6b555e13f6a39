//! The three well-known byte-order marks that may start a buffer.

use vstd::prelude::*;

verus! {

/// The buffer starts with the UTF-8 byte-order mark `EF BB BF`.
pub open spec fn has_utf8_bom(s: Seq<u8>) -> bool {
    s.len() >= 3 && s[0] == 0xEF && s[1] == 0xBB && s[2] == 0xBF
}

/// The buffer starts with the UTF-16 little-endian byte-order mark `FF FE`.
pub open spec fn has_utf16le_bom(s: Seq<u8>) -> bool {
    s.len() >= 2 && s[0] == 0xFF && s[1] == 0xFE
}

/// The buffer starts with the UTF-16 big-endian byte-order mark `FE FF`.
pub open spec fn has_utf16be_bom(s: Seq<u8>) -> bool {
    s.len() >= 2 && s[0] == 0xFE && s[1] == 0xFF
}

/// The buffer starts with one of the three known byte-order marks.
pub open spec fn has_any_bom(s: Seq<u8>) -> bool {
    has_utf8_bom(s) || has_utf16le_bom(s) || has_utf16be_bom(s)
}

} // verus!
