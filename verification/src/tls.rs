//! Certificate pins: the fingerprint of a session's certificate, and how a
//! station that joins checks it.
use vstd::prelude::*;

use crate::canonical::{sha256, sha256_digest};
use crate::text::{hex_digit_spec, hex_prefix, hex_spec};

verus! {

/// The value of a hexadecimal digit, in either case.
pub open spec fn nibble(b: u8) -> Option<u8> {
    if 0x30 <= b <= 0x39 {
        Some((b - 0x30) as u8)
    } else if 0x61 <= b <= 0x66 {
        Some((b - 0x61 + 10) as u8)
    } else if 0x41 <= b <= 0x46 {
        Some((b - 0x41 + 10) as u8)
    } else {
        None
    }
}

fn hex_nibble(b: u8) -> (r: Option<u8>)
    ensures
        r == nibble(b),
        r matches Some(n) ==> n < 16,
{
    if 0x30 <= b && b <= 0x39 {
        Some(b - 0x30)
    } else if 0x61 <= b && b <= 0x66 {
        Some(b - 0x61 + 10)
    } else if 0x41 <= b && b <= 0x46 {
        Some(b - 0x41 + 10)
    } else {
        None
    }
}

/// Encode a 32-byte fingerprint as 64 lowercase hex characters.
pub fn fp_hex(fp: &[u8; 32]) -> (r: String)
    ensures
        r@ == hex_spec(fp@),
{
    hex_prefix(fp.as_slice(), 32)
}

/// Encode a 16-byte fingerprint prefix as 32 lowercase hex characters.
pub fn fp16_hex(fp: &[u8; 16]) -> (r: String)
    ensures
        r@ == hex_spec(fp@),
{
    hex_prefix(fp.as_slice(), 16)
}

/// Are these the bytes of a fingerprint's hexadecimal text?
pub open spec fn is_fp_text(bytes: Seq<u8>) -> bool {
    bytes.len() == 64 && forall|i: int| 0 <= i < 64 ==> nibble(#[trigger] bytes[i]) is Some
}

/// The byte that two digits stand for.
pub open spec fn byte_at(bytes: Seq<u8>, i: int) -> int {
    nibble(bytes[2 * i])->Some_0 * 16 + nibble(bytes[2 * i + 1])->Some_0
}

/// Parse a 64-char hex fingerprint string back to 32 bytes.
pub fn parse_fp_hex(s: &str) -> (r: Option<[u8; 32]>)
    ensures
        match r {
            Some(fp) => is_fp_text(vstd::utf8::encode_utf8(s@)) && forall|i: int|
                0 <= i < 32 ==> #[trigger] fp@[i] == byte_at(vstd::utf8::encode_utf8(s@), i),
            None => !is_fp_text(vstd::utf8::encode_utf8(s@)),
        },
{
    let bytes = s.as_bytes();
    let ghost text = vstd::utf8::encode_utf8(s@);
    if bytes.len() != 64 {
        return None;
    }
    let mut out: [u8; 32] = [0u8; 32];
    let mut i: usize = 0;
    while i < 32
        invariant
            0 <= i <= 32,
            bytes@ == text,
            text == vstd::utf8::encode_utf8(s@),
            text.len() == 64,
            forall|j: int| 0 <= j < 2 * i ==> nibble(#[trigger] text[j]) is Some,
            forall|j: int| 0 <= j < i ==> #[trigger] out@[j] == byte_at(text, j),
        decreases 32 - i,
    {
        let hi = match hex_nibble(bytes[2 * i]) {
            Some(hi) => hi,
            None => {
                return None;
            },
        };
        let lo = match hex_nibble(bytes[2 * i + 1]) {
            Some(lo) => lo,
            None => {
                return None;
            },
        };
        out[i] = hi * 16 + lo;
        i = i + 1;
    }
    Some(out)
}

/// The fingerprint of a certificate: the SHA-256 of its DER bytes.
pub fn fingerprint(cert: &[u8]) -> (r: [u8; 32])
    ensures
        r@ == sha256_digest(cert@),
{
    sha256(cert).0
}

/// First 16 bytes of a fingerprint. Second-preimage resistance at 128 bits is
/// adequate for cert pinning.
pub fn fingerprint16(fp: &[u8; 32]) -> (r: [u8; 16])
    ensures
        r@ == fp@.take(16),
{
    let mut out: [u8; 16] = [0u8; 16];
    let mut i: usize = 0;
    while i < 16
        invariant
            0 <= i <= 16,
            forall|j: int| 0 <= j < i ==> #[trigger] out@[j] == fp@[j],
        decreases 16 - i,
    {
        out[i] = fp[i];
        i = i + 1;
    }
    out
}

/// Does the certificate match the pin? The pin, delivered in the invite, is the
/// sole trust root: no authority and no host name is looked at.
pub fn check_pin(cert: &[u8], fp16: &[u8; 16]) -> (r: Result<(), String>)
    ensures
        match r {
            Ok(_) => sha256_digest(cert@).take(16) == fp16@,
            Err(words) => {
                &&& sha256_digest(cert@).take(16) != fp16@
                &&& words@ == "certificate fingerprint mismatch: expected "@ + hex_spec(fp16@)
                    + ", got "@ + hex_spec(sha256_digest(cert@).take(16))
            },
        },
{
    let got = fingerprint16(&fingerprint(cert));
    assert(got@ == fp16@ ==> got =~= *fp16);
    if crate::ids::same_bytes(&got, fp16) {
        Ok(())
    } else {
        let expected = fp16_hex(fp16);
        let found = fp16_hex(&got);
        Err(
            "certificate fingerprint mismatch: expected ".to_owned().concat(
                expected.as_str(),
            ).concat(", got ").concat(found.as_str()),
        )
    }
}

/// A digit has the value it was written for.
proof fn digit_has_its_value(d: int)
    requires
        0 <= d < 16,
    ensures
        '\0' <= hex_digit_spec(d) <= '\u{7f}',
        nibble(hex_digit_spec(d) as u8) == Some(d as u8),
{
}

/// A fingerprint's text is read back as the fingerprint.
pub proof fn fingerprint_text_is_read_back(fp: Seq<u8>)
    requires
        fp.len() == 32,
    ensures
        is_fp_text(vstd::utf8::encode_utf8(hex_spec(fp))),
        forall|i: int|
            0 <= i < 32 ==> byte_at(vstd::utf8::encode_utf8(hex_spec(fp)), i) == #[trigger] fp[i],
{
    let chars = hex_spec(fp);
    assert forall|i: int| 0 <= i < chars.len() implies '\0' <= #[trigger] chars[i] <= '\u{7f}' by {
        digit_has_its_value(fp[i / 2] as int / 16);
        digit_has_its_value(fp[i / 2] as int % 16);
    }
    vstd::utf8::is_ascii_chars_encode_utf8(chars);
    let bytes = vstd::utf8::encode_utf8(chars);
    assert forall|i: int| 0 <= i < 64 implies nibble(#[trigger] bytes[i]) is Some by {
        digit_has_its_value(fp[i / 2] as int / 16);
        digit_has_its_value(fp[i / 2] as int % 16);
    }
    assert forall|i: int| 0 <= i < 32 implies byte_at(bytes, i) == #[trigger] fp[i] by {
        digit_has_its_value(fp[i] as int / 16);
        digit_has_its_value(fp[i] as int % 16);
    }
}

/// A digit stands for its place among the sixteen, in either case, and no other
/// byte is a digit.
pub proof fn digits_stand_for_their_place(b: u8)
    ensures
        '0' as u8 <= b <= '9' as u8 ==> nibble(b) == Some((b - '0' as u8) as u8),
        'a' as u8 <= b <= 'f' as u8 ==> nibble(b) == Some((b - 'a' as u8 + 10) as u8),
        'A' as u8 <= b <= 'F' as u8 ==> nibble(b) == Some((b - 'A' as u8 + 10) as u8),
        nibble(b) is Some ==> '0' as u8 <= b <= '9' as u8 || 'a' as u8 <= b <= 'f' as u8
            || 'A' as u8 <= b <= 'F' as u8,
{
}

/// A fingerprint's text is sixty-four digits, two to a byte, the higher first.
pub proof fn fingerprints_are_sixty_four_digits(bytes: Seq<u8>)
    ensures
        is_fp_text(bytes) ==> bytes.len() == 64,
        is_fp_text(bytes) <==> bytes.len() == 64 && forall|i: int|
            0 <= i < bytes.len() ==> nibble(#[trigger] bytes[i]) is Some,
        is_fp_text(bytes) ==> forall|i: int|
            0 <= i < 32 ==> #[trigger] byte_at(bytes, i) == nibble(bytes[2 * i])->Some_0 * 16
                + nibble(bytes[2 * i + 1])->Some_0,
{
}

} // verus!
