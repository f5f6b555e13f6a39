//! The UTF-7 decoding engine: a scanner that alternates directly-copied
//! ASCII runs with shifted runs of modified-Base64-encoded UTF-16 big-endian
//! code units.

use vstd::prelude::*;

use crate::text::ascii_as_str;
use crate::text::ascii_chars;
use crate::text::push_char;
use crate::text::push_str_suffix;
use crate::text::string_with_capacity;
use crate::text::DecodedText;

verus! {

/// A byte that the scanner copies directly: ASCII and not the shift
/// character `+`.
pub open spec fn is_direct_byte(b: u8) -> bool {
    b < 0x80 && b != 0x2B
}

/// A byte of the standard Base64 alphabet without padding:
/// `A`-`Z`, `a`-`z`, `0`-`9`, `+`, `/`.
pub open spec fn is_base64_byte(b: u8) -> bool {
    (0x41 <= b && b <= 0x5A) || (0x61 <= b && b <= 0x7A) || (0x30 <= b && b <= 0x39) || b == 0x2B
        || b == 0x2F
}

/// The six-bit value of a standard-alphabet Base64 byte.
pub open spec fn b64_val(b: u8) -> int {
    if 0x41 <= b && b <= 0x5A {
        b - 0x41
    } else if 0x61 <= b && b <= 0x7A {
        b - 0x61 + 26
    } else if 0x30 <= b && b <= 0x39 {
        b - 0x30 + 52
    } else if b == 0x2B {
        62
    } else {
        63
    }
}

/// First output byte of a Base64 group: all six bits of the first character
/// and the top two bits of the second.
pub open spec fn b64_byte0(c0: u8, c1: u8) -> u8 {
    (b64_val(c0) * 4 + b64_val(c1) / 16) as u8
}

/// Second output byte of a Base64 group: the low four bits of the second
/// character and the top four bits of the third.
pub open spec fn b64_byte1(c1: u8, c2: u8) -> u8 {
    ((b64_val(c1) % 16) * 16 + b64_val(c2) / 4) as u8
}

/// Third output byte of a Base64 group: the low two bits of the third
/// character and all six bits of the fourth.
pub open spec fn b64_byte2(c2: u8, c3: u8) -> u8 {
    ((b64_val(c2) % 4) * 64 + b64_val(c3)) as u8
}

/// The bytes denoted by a run of Base64 characters, without padding: each
/// complete group of four characters yields three bytes; a final group of
/// three characters yields two bytes, of two characters one byte; a lone
/// final character carries fewer bits than a byte and yields nothing.
pub open spec fn b64_bytes(s: Seq<u8>) -> Seq<u8>
    decreases s.len(),
{
    if s.len() >= 4 {
        seq![
            b64_byte0(s[0], s[1]),
            b64_byte1(s[1], s[2]),
            b64_byte2(s[2], s[3]),
        ] + b64_bytes(s.skip(4))
    } else if s.len() == 3 {
        seq![b64_byte0(s[0], s[1]), b64_byte1(s[1], s[2])]
    } else if s.len() == 2 {
        seq![b64_byte0(s[0], s[1])]
    } else {
        Seq::empty()
    }
}

/// A Base64 run never denotes more bytes than it has characters.
proof fn lemma_b64_bytes_len(s: Seq<u8>)
    ensures
        b64_bytes(s).len() <= s.len(),
    decreases s.len(),
{
    if s.len() >= 4 {
        lemma_b64_bytes_len(s.skip(4));
    }
}

/// A lone trailing Base64 character beyond the last complete group carries
/// no whole byte, so dropping it leaves the denoted bytes unchanged.
proof fn lemma_b64_bytes_drop_dangling(s: Seq<u8>)
    requires
        s.len() % 4 == 1,
    ensures
        b64_bytes(s) == b64_bytes(s.take(s.len() - 1)),
    decreases s.len(),
{
    if s.len() == 1 {
        assert(s.take(0) =~= Seq::<u8>::empty());
    } else {
        let t = s.take(s.len() - 1);
        assert(t.len() == s.len() - 1);
        lemma_b64_bytes_drop_dangling(s.skip(4));
        assert(s.skip(4).take(s.skip(4).len() - 1) =~= t.skip(4));
        assert(b64_bytes(s.skip(4)) == b64_bytes(t.skip(4)));
    }
}

/// Index of the first byte that ends a directly-copied ASCII run.
pub fn utf7_ascii_up_to(bytes: &[u8]) -> (r: usize)
    ensures
        r <= bytes@.len(),
        forall|j: int| 0 <= j < r ==> is_direct_byte(#[trigger] bytes@[j]),
        r < bytes@.len() ==> !is_direct_byte(bytes@[r as int]),
{
    let mut i: usize = 0;
    while i < bytes.len()
        invariant
            i <= bytes@.len(),
            forall|j: int| 0 <= j < i ==> is_direct_byte(#[trigger] bytes@[j]),
        decreases bytes@.len() - i,
    {
        let b = bytes[i];
        if b == 0x2B || b >= 0x80 {
            return i;
        }
        i += 1;
    }
    i
}

/// Index of the first byte that ends a run of Base64-alphabet characters.
pub fn utf7_base64_up_to(bytes: &[u8]) -> (r: usize)
    ensures
        r <= bytes@.len(),
        forall|j: int| 0 <= j < r ==> is_base64_byte(#[trigger] bytes@[j]),
        r < bytes@.len() ==> !is_base64_byte(bytes@[r as int]),
{
    let mut i: usize = 0;
    while i < bytes.len()
        invariant
            i <= bytes@.len(),
            forall|j: int| 0 <= j < i ==> is_base64_byte(#[trigger] bytes@[j]),
        decreases bytes@.len() - i,
    {
        let b = bytes[i];
        let ok = (0x41 <= b && b <= 0x5A) || (0x61 <= b && b <= 0x7A) || (0x30 <= b && b <= 0x39)
            || b == 0x2B || b == 0x2F;
        if !ok {
            return i;
        }
        i += 1;
    }
    i
}

/// What decoding a byte buffer as UTF-16 big-endian yields: the characters,
/// with malformed sequences replaced by U+FFFD, and whether any replacement
/// happened. The external codec computes it; it is a function of the bytes
/// alone.
pub uninterp spec fn utf16be_decoded(bytes: Seq<u8>) -> (Seq<char>, bool);

/// Relies on `base64::decode_config_slice` with the standard alphabet, no
/// padding, and trailing bits allowed: a run of alphabet characters whose
/// length has no six-bit remainder decodes to exactly the bytes of
/// `b64_bytes`, group by group, and the call cannot fail on such input.
#[verifier::external_body]
fn base64_decode_alphabet_run(bytes: &[u8]) -> (r: Vec<u8>)
    requires
        bytes@.len() % 4 != 1,
        bytes@.len() + 8 <= usize::MAX,
        forall|j: int| 0 <= j < bytes@.len() ==> is_base64_byte(#[trigger] bytes@[j]),
    ensures
        r@ == b64_bytes(bytes@),
{
    let mut buf = vec![0u8; (bytes.len() + 3) / 4 * 3 + 8];
    let config = base64::Config::new(base64::CharacterSet::Standard, false)
        .decode_allow_trailing_bits(true);
    let n = base64::decode_config_slice(bytes, config, &mut buf).unwrap();
    buf.truncate(n);
    buf
}

/// Relies on `encoding_rs`: `UTF_16BE.decode_without_bom_handling` decodes a
/// complete buffer as UTF-16 big-endian, replacing malformed sequences with
/// U+FFFD and reporting whether any replacement happened; the result depends
/// on the bytes alone, and an empty buffer decodes to an empty string with
/// no error. The bound on the length keeps the codec's own output-capacity
/// computation within `usize`.
#[verifier::external_body]
fn utf16be_to_text(bytes: &Vec<u8>) -> (r: (String, bool))
    requires
        bytes@.len() <= usize::MAX / 3,
    ensures
        (r.0@, r.1) == utf16be_decoded(bytes@),
        bytes@.len() == 0 ==> r.0@.len() == 0 && !r.1,
{
    let (text, had_errors) = encoding_rs::UTF_16BE.decode_without_bom_handling(bytes.as_slice());
    (text.into_owned(), had_errors)
}

/// Decodes one shifted run (Base64-alphabet bytes only) to UTF-16 big-endian
/// code units and appends their transcoding onto `string`, returning whether
/// the run held malformed UTF-16.
fn utf7_base64_decode(bytes: &[u8], string: &mut String) -> (err: bool)
    requires
        bytes@.len() * 3 <= usize::MAX,
        forall|j: int| 0 <= j < bytes@.len() ==> is_base64_byte(#[trigger] bytes@[j]),
    ensures
        final(string)@ == old(string)@ + utf16be_decoded(b64_bytes(bytes@)).0,
        err == utf16be_decoded(b64_bytes(bytes@)).1,
{
    let n = bytes.len();
    let usable = if n % 4 == 1 {
        n - 1
    } else {
        n
    };
    let run = &bytes[0..usable];
    proof {
        assert(run@ =~= bytes@.subrange(0, usable as int));
        if n % 4 == 1 {
            lemma_b64_bytes_drop_dangling(bytes@);
            assert(bytes@.take(n - 1) =~= run@);
        } else {
            assert(run@ =~= bytes@);
        }
    }
    let raw = base64_decode_alphabet_run(run);
    proof {
        lemma_b64_bytes_len(run@);
    }
    let (text, err) = utf16be_to_text(&raw);
    push_str_suffix(string, text.as_str());
    err
}

/// Length of the directly-copied ASCII run at the start of the buffer.
pub open spec fn direct_run_len(s: Seq<u8>) -> nat
    decreases s.len(),
{
    if s.len() == 0 || !is_direct_byte(s[0]) {
        0
    } else {
        (1 + direct_run_len(s.skip(1))) as nat
    }
}

/// Length of the run of Base64-alphabet bytes at the start of the buffer.
pub open spec fn b64_run_len(s: Seq<u8>) -> nat
    decreases s.len(),
{
    if s.len() == 0 || !is_base64_byte(s[0]) {
        0
    } else {
        (1 + b64_run_len(s.skip(1))) as nat
    }
}

proof fn lemma_direct_run_len_le(s: Seq<u8>)
    ensures
        direct_run_len(s) <= s.len(),
    decreases s.len(),
{
    if s.len() > 0 && is_direct_byte(s[0]) {
        lemma_direct_run_len_le(s.skip(1));
    }
}

proof fn lemma_b64_run_len_le(s: Seq<u8>)
    ensures
        b64_run_len(s) <= s.len(),
    decreases s.len(),
{
    if s.len() > 0 && is_base64_byte(s[0]) {
        lemma_b64_run_len_le(s.skip(1));
    }
}

/// A prefix of direct bytes that is ended by the end of the buffer or by a
/// non-direct byte is exactly the directly-copied run.
proof fn lemma_direct_run_len_from(s: Seq<u8>, r: int)
    requires
        0 <= r <= s.len(),
        forall|j: int| 0 <= j < r ==> is_direct_byte(#[trigger] s[j]),
        r < s.len() ==> !is_direct_byte(s[r]),
    ensures
        direct_run_len(s) == r,
    decreases s.len(),
{
    if r == 0 {
    } else {
        assert(is_direct_byte(s[0]));
        assert forall|j: int| 0 <= j < r - 1 implies is_direct_byte(#[trigger] s.skip(1)[j]) by {
            assert(s.skip(1)[j] == s[j + 1]);
        }
        if r - 1 < s.skip(1).len() {
            assert(s.skip(1)[r - 1] == s[r]);
        }
        lemma_direct_run_len_from(s.skip(1), r - 1);
    }
}

/// A prefix of Base64-alphabet bytes that is ended by the end of the buffer
/// or by a byte outside the alphabet is exactly the Base64 run.
proof fn lemma_b64_run_len_from(s: Seq<u8>, r: int)
    requires
        0 <= r <= s.len(),
        forall|j: int| 0 <= j < r ==> is_base64_byte(#[trigger] s[j]),
        r < s.len() ==> !is_base64_byte(s[r]),
    ensures
        b64_run_len(s) == r,
    decreases s.len(),
{
    if r == 0 {
    } else {
        assert(is_base64_byte(s[0]));
        assert forall|j: int| 0 <= j < r - 1 implies is_base64_byte(#[trigger] s.skip(1)[j]) by {
            assert(s.skip(1)[j] == s[j + 1]);
        }
        if r - 1 < s.skip(1).len() {
            assert(s.skip(1)[r - 1] == s[r]);
        }
        lemma_b64_run_len_from(s.skip(1), r - 1);
    }
}

/// What decoding a whole buffer as UTF-7 yields: the characters and whether
/// any malformed input was replaced with U+FFFD. The scanner copies the
/// leading ASCII run; at the end of input it stops; at a byte at or above
/// 0x80 it substitutes U+FFFD; at `+` it takes the maximal Base64 run that
/// follows: an empty run closed by `-` denotes a literal `+`, an empty run
/// closed by anything else is malformed (and the ending byte is scanned
/// again), and a non-empty run decodes as UTF-16 big-endian, with a `-`
/// right after it absorbed as the end of the shift.
pub open spec fn utf7_decoded(s: Seq<u8>) -> (Seq<char>, bool)
    decreases s.len(),
    via utf7_decoded_decreases
{
    let a = direct_run_len(s) as int;
    let pre = ascii_chars(s.take(a));
    if a == s.len() {
        (pre, false)
    } else if s[a] != 0x2B {
        let rest = utf7_decoded(s.skip(a + 1));
        (pre + seq!['\u{FFFD}'] + rest.0, true)
    } else {
        let t = s.skip(a + 1);
        let rl = b64_run_len(t) as int;
        if rl == 0 {
            if t.len() > 0 && t[0] == 0x2D {
                let rest = utf7_decoded(t.skip(1));
                (pre + seq!['+'] + rest.0, rest.1)
            } else {
                let rest = utf7_decoded(t);
                (pre + seq!['\u{FFFD}'] + rest.0, true)
            }
        } else {
            let dec = utf16be_decoded(b64_bytes(t.take(rl)));
            let rest = if rl < t.len() && t[rl] == 0x2D {
                utf7_decoded(t.skip(rl + 1))
            } else {
                utf7_decoded(t.skip(rl))
            };
            (pre + dec.0 + rest.0, dec.1 || rest.1)
        }
    }
}

#[via_fn]
proof fn utf7_decoded_decreases(s: Seq<u8>) {
    lemma_direct_run_len_le(s);
    let a = direct_run_len(s) as int;
    if a < s.len() && s[a] == 0x2B {
        lemma_b64_run_len_le(s.skip(a + 1));
    }
}

/// Unfolds one scanner step ending the input: a directly-copied run that
/// reaches the end of the buffer.
proof fn lemma_step_end(s: Seq<u8>, pos: int, rel: int)
    requires
        0 <= pos <= pos + rel,
        pos + rel == s.len(),
        direct_run_len(s.skip(pos)) == rel,
    ensures
        utf7_decoded(s.skip(pos)).0 == ascii_chars(s.subrange(pos, pos + rel)),
        utf7_decoded(s.skip(pos)).1 == false,
{
    let u = s.skip(pos);
    assert(u.take(rel) =~= s.subrange(pos, pos + rel));
}

/// Unfolds one scanner step at a byte at or above 0x80 outside any shift:
/// one U+FFFD, the error flag set, and scanning resumes after the byte.
proof fn lemma_step_high(s: Seq<u8>, pos: int, rel: int)
    requires
        0 <= pos <= pos + rel,
        pos + rel < s.len(),
        direct_run_len(s.skip(pos)) == rel,
        s[pos + rel] != 0x2B,
    ensures
        utf7_decoded(s.skip(pos)).0 == ascii_chars(s.subrange(pos, pos + rel)) + seq!['\u{FFFD}']
            + utf7_decoded(s.skip(pos + rel + 1)).0,
        utf7_decoded(s.skip(pos)).1 == true,
{
    let u = s.skip(pos);
    assert(u.take(rel) =~= s.subrange(pos, pos + rel));
    assert(u[rel] == s[pos + rel]);
    assert(u.skip(rel + 1) =~= s.skip(pos + rel + 1));
}

/// Unfolds one scanner step at the pair `+-`, which denotes a literal plus
/// sign.
proof fn lemma_step_plus_minus(s: Seq<u8>, pos: int, rel: int)
    requires
        0 <= pos <= pos + rel,
        pos + rel + 1 < s.len(),
        direct_run_len(s.skip(pos)) == rel,
        s[pos + rel] == 0x2B,
        b64_run_len(s.skip(pos + rel + 1)) == 0,
        s[pos + rel + 1] == 0x2D,
    ensures
        utf7_decoded(s.skip(pos)).0 == ascii_chars(s.subrange(pos, pos + rel)) + seq!['+']
            + utf7_decoded(s.skip(pos + rel + 2)).0,
        utf7_decoded(s.skip(pos)).1 == utf7_decoded(s.skip(pos + rel + 2)).1,
{
    let u = s.skip(pos);
    let t = u.skip(rel + 1);
    assert(u.take(rel) =~= s.subrange(pos, pos + rel));
    assert(u[rel] == s[pos + rel]);
    assert(t =~= s.skip(pos + rel + 1));
    assert(t[0] == s[pos + rel + 1]);
    assert(t.skip(1) =~= s.skip(pos + rel + 2));
}

/// Unfolds one scanner step at a `+` that neither starts a Base64 run nor is
/// followed by `-`: one U+FFFD, the error flag set, and the ending byte (if
/// any) is scanned again.
proof fn lemma_step_plus_bad(s: Seq<u8>, pos: int, rel: int)
    requires
        0 <= pos <= pos + rel,
        pos + rel < s.len(),
        direct_run_len(s.skip(pos)) == rel,
        s[pos + rel] == 0x2B,
        b64_run_len(s.skip(pos + rel + 1)) == 0,
        pos + rel + 1 < s.len() ==> s[pos + rel + 1] != 0x2D,
    ensures
        utf7_decoded(s.skip(pos)).0 == ascii_chars(s.subrange(pos, pos + rel)) + seq!['\u{FFFD}']
            + utf7_decoded(s.skip(pos + rel + 1)).0,
        utf7_decoded(s.skip(pos)).1 == true,
{
    let u = s.skip(pos);
    let t = u.skip(rel + 1);
    assert(u.take(rel) =~= s.subrange(pos, pos + rel));
    assert(u[rel] == s[pos + rel]);
    assert(t =~= s.skip(pos + rel + 1));
    if t.len() > 0 {
        assert(t[0] == s[pos + rel + 1]);
    }
}

/// Unfolds one scanner step at a `+` that starts a non-empty Base64 run: the
/// run decodes as UTF-16 big-endian, and a `-` right after the run is
/// absorbed as the end of the shift.
proof fn lemma_step_run(s: Seq<u8>, pos: int, rel: int, rl: int)
    requires
        0 <= pos <= pos + rel,
        pos + rel < s.len(),
        direct_run_len(s.skip(pos)) == rel,
        s[pos + rel] == 0x2B,
        b64_run_len(s.skip(pos + rel + 1)) == rl,
        rl > 0,
        pos + rel + 1 + rl <= s.len(),
    ensures
        ({
            let dec = utf16be_decoded(b64_bytes(s.subrange(pos + rel + 1, pos + rel + 1 + rl)));
            let close = pos + rel + 1 + rl < s.len() && s[pos + rel + 1 + rl] == 0x2D;
            let rest = if close {
                utf7_decoded(s.skip(pos + rel + 2 + rl))
            } else {
                utf7_decoded(s.skip(pos + rel + 1 + rl))
            };
            utf7_decoded(s.skip(pos)).0 == ascii_chars(s.subrange(pos, pos + rel)) + dec.0 + rest.0
                && utf7_decoded(s.skip(pos)).1 == (dec.1 || rest.1)
        }),
{
    let u = s.skip(pos);
    let t = u.skip(rel + 1);
    assert(u.take(rel) =~= s.subrange(pos, pos + rel));
    assert(u[rel] == s[pos + rel]);
    assert(t =~= s.skip(pos + rel + 1));
    assert(t.take(rl) =~= s.subrange(pos + rel + 1, pos + rel + 1 + rl));
    if rl < t.len() {
        assert(t[rl] == s[pos + rel + 1 + rl]);
    }
    assert(t.skip(rl) =~= s.skip(pos + rel + 1 + rl));
    if rl + 1 <= t.len() {
        assert(t.skip(rl + 1) =~= s.skip(pos + rel + 1 + rl + 1));
    }
}

/// Decodes a complete buffer as UTF-7, replacing malformed input with
/// U+FFFD. A buffer that is entirely direct ASCII comes back borrowed from
/// the input, without copying and without error.
#[verifier::rlimit(100)]
pub fn decode_utf7<'a>(bytes: &'a [u8]) -> (r: (DecodedText<'a>, bool))
    requires
        bytes@.len() * 3 <= usize::MAX,
    ensures
        r.0@ == utf7_decoded(bytes@).0,
        r.1 == utf7_decoded(bytes@).1,
        (forall|j: int| 0 <= j < bytes@.len() ==> is_direct_byte(#[trigger] bytes@[j])) ==> (
        r.0 is Borrowed && !r.1),
{
    let first_run = utf7_ascii_up_to(bytes);
    if first_run == bytes.len() {
        proof {
            lemma_direct_run_len_from(bytes@, first_run as int);
            assert(bytes@.take(bytes@.len() as int) =~= bytes@);
        }
        let text = ascii_as_str(bytes);
        return (DecodedText::Borrowed(text), false);
    }
    let mut out = string_with_capacity(bytes.len() * 3);
    let mut err = false;
    let mut pos: usize = 0;
    proof {
        assert(bytes@.skip(0) =~= bytes@);
    }
    loop
        invariant
            pos <= bytes@.len(),
            bytes@.len() * 3 <= usize::MAX,
            first_run < bytes@.len(),
            !is_direct_byte(bytes@[first_run as int]),
            utf7_decoded(bytes@).0 == out@ + utf7_decoded(bytes@.skip(pos as int)).0,
            utf7_decoded(bytes@).1 == (err || utf7_decoded(bytes@.skip(pos as int)).1),
        decreases bytes@.len() - pos,
    {
        let sub = &bytes[pos..bytes.len()];
        let rel = utf7_ascii_up_to(sub);
        let run_end = pos + rel;
        proof {
            assert(sub@ =~= bytes@.skip(pos as int));
            lemma_direct_run_len_from(bytes@.skip(pos as int), rel as int);
        }
        if rel > 0 {
            let run = &bytes[pos..run_end];
            proof {
                assert(run@ =~= bytes@.subrange(pos as int, run_end as int));
                assert forall|j: int| 0 <= j < run@.len() implies run@[j] < 0x80 by {
                    assert(is_direct_byte(bytes@.skip(pos as int)[j]));
                }
            }
            let piece = ascii_as_str(run);
            push_str_suffix(&mut out, piece);
        }
        if run_end == bytes.len() {
            proof {
                lemma_step_end(bytes@, pos as int, rel as int);
                assert(utf7_decoded(bytes@).0 =~= out@);
            }
            return (DecodedText::Owned(out), err);
        }
        let b = bytes[run_end];
        if b == 0x2B {
            let t_start = run_end + 1;
            let tsub = &bytes[t_start..bytes.len()];
            let rel2 = utf7_base64_up_to(tsub);
            let b64_end = t_start + rel2;
            proof {
                assert(tsub@ =~= bytes@.skip(t_start as int));
                lemma_b64_run_len_from(bytes@.skip(t_start as int), rel2 as int);
            }
            if rel2 == 0 {
                if t_start < bytes.len() && bytes[t_start] == 0x2D {
                    push_char(&mut out, '+');
                    proof {
                        lemma_step_plus_minus(bytes@, pos as int, rel as int);
                        assert(utf7_decoded(bytes@).0 =~= out@ + utf7_decoded(
                            bytes@.skip(t_start + 1),
                        ).0);
                    }
                    pos = t_start + 1;
                } else {
                    push_char(&mut out, '\u{FFFD}');
                    err = true;
                    proof {
                        lemma_step_plus_bad(bytes@, pos as int, rel as int);
                        assert(utf7_decoded(bytes@).0 =~= out@ + utf7_decoded(
                            bytes@.skip(t_start as int),
                        ).0);
                    }
                    pos = t_start;
                }
            } else {
                let run = &bytes[t_start..b64_end];
                proof {
                    assert(run@ =~= bytes@.subrange(t_start as int, b64_end as int));
                    assert forall|j: int| 0 <= j < run@.len() implies is_base64_byte(
                        #[trigger] run@[j],
                    ) by {
                        assert(is_base64_byte(bytes@.skip(t_start as int)[j]));
                    }
                }
                let e2 = utf7_base64_decode(run, &mut out);
                err = err || e2;
                proof {
                    lemma_step_run(bytes@, pos as int, rel as int, rel2 as int);
                }
                if b64_end < bytes.len() && bytes[b64_end] == 0x2D {
                    proof {
                        assert(utf7_decoded(bytes@).0 =~= out@ + utf7_decoded(
                            bytes@.skip(b64_end + 1),
                        ).0);
                    }
                    pos = b64_end + 1;
                } else {
                    proof {
                        assert(utf7_decoded(bytes@).0 =~= out@ + utf7_decoded(
                            bytes@.skip(b64_end as int),
                        ).0);
                    }
                    pos = b64_end;
                }
            }
        } else {
            push_char(&mut out, '\u{FFFD}');
            err = true;
            proof {
                lemma_step_high(bytes@, pos as int, rel as int);
                assert(utf7_decoded(bytes@).0 =~= out@ + utf7_decoded(bytes@.skip(run_end + 1)).0);
            }
            pos = run_end + 1;
        }
    }
}

/// Law: a buffer that holds only direct bytes (ASCII below 0x80 and no `+`)
/// decodes to exactly those bytes read as characters, with no error.
pub proof fn lemma_direct_ascii_decodes_unchanged(s: Seq<u8>)
    requires
        forall|j: int| 0 <= j < s.len() ==> is_direct_byte(#[trigger] s[j]),
    ensures
        utf7_decoded(s).0 == ascii_chars(s),
        utf7_decoded(s).1 == false,
{
    lemma_direct_run_len_from(s, s.len() as int);
    assert(s.take(s.len() as int) =~= s);
}

/// Law: UTF-7 decoding is a pure function of the input buffer; two buffers
/// that hold the same bytes decode to the same characters and the same error
/// flag. Together with the contract of `decode_utf7`, which pins its result
/// to this function of the input view, two calls on identical bytes always
/// yield identical results.
pub proof fn lemma_utf7_decode_deterministic(s1: Seq<u8>, s2: Seq<u8>)
    requires
        s1 == s2,
    ensures
        utf7_decoded(s1) == utf7_decoded(s2),
{
}

} // verus!
