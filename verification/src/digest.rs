//! SHA-256 digests and their lowercase hexadecimal notation.

use vstd::prelude::*;
use sha2::{Digest, Sha256};
use crate::text::push_char;

verus! {

/// The SHA-256 digest of a byte sequence.
pub uninterp spec fn sha256_of(data: Seq<u8>) -> Seq<u8>;

/// `sha2::Sha256::digest`: the SHA-256 digest of the data, which is 32 bytes
/// long; the value itself is named, not computed here.
#[verifier::external_body]
pub(crate) fn sha256_digest(data: &[u8]) -> (r: Vec<u8>)
    ensures
        r@ == sha256_of(data@),
        r@.len() == 32,
{
    Sha256::digest(data).to_vec()
}

/// The lowercase hexadecimal digit of a value below 16.
pub open spec fn hex_digit(d: int) -> char {
    if d < 10 {
        (48 + d) as char
    } else {
        (87 + d) as char
    }
}

/// Lowercase hexadecimal notation, two digits per byte.
pub open spec fn hex_lower(b: Seq<u8>) -> Seq<char>
    decreases b.len(),
{
    if b.len() == 0 {
        Seq::empty()
    } else {
        hex_lower(b.drop_last()) + seq![hex_digit((b.last() / 16) as int), hex_digit((b.last() % 16) as int)]
    }
}

fn hex_digit_exec(d: u8) -> (c: char)
    requires
        d < 16,
    ensures
        c == hex_digit(d as int),
{
    if d < 10 {
        (48u8 + d) as char
    } else {
        (87u8 + d) as char
    }
}

pub fn to_hex_lower(b: &[u8]) -> (s: String)
    ensures
        s@ == hex_lower(b@),
{
    let mut s = String::new();
    let mut i: usize = 0;
    while i < b.len()
        invariant
            i <= b@.len(),
            s@ == hex_lower(b@.take(i as int)),
        decreases b@.len() - i,
    {
        let x = b[i];
        push_char(&mut s, hex_digit_exec(x / 16));
        push_char(&mut s, hex_digit_exec(x % 16));
        assert(b@.take(i + 1).drop_last() =~= b@.take(i as int));
        i += 1;
        assert(s@ =~= hex_lower(b@.take(i as int)));
    }
    assert(b@.take(b@.len() as int) =~= b@);
    s
}

/// `sha256:` followed by the hexadecimal SHA-256 digest of `data`.
pub open spec fn sha256_reference(data: Seq<u8>) -> Seq<char> {
    "sha256:"@ + hex_lower(sha256_of(data))
}

pub fn sha256_reference_of(data: &[u8]) -> (r: String)
    ensures
        r@ == sha256_reference(data@),
{
    let d = sha256_digest(data);
    let h = to_hex_lower(d.as_slice());
    let mut r = String::from_str("sha256:");
    r.append(h.as_str());
    r
}

} // verus!
verus! {


/// The value of a hexadecimal digit, either case.
pub open spec fn hex_value(c: char) -> Option<u8> {
    if '0' <= c && c <= '9' {
        Some((c as int - 48) as u8)
    } else if 'a' <= c && c <= 'f' {
        Some((c as int - 87) as u8)
    } else if 'A' <= c && c <= 'F' {
        Some((c as int - 55) as u8)
    } else {
        None
    }
}

/// The bytes that hexadecimal text stands for, two digits per byte, high
/// nibble first; `None` for an odd length or a character that is no digit.
pub open spec fn hex_decoded(s: Seq<char>) -> Option<Seq<u8>>
    decreases s.len(),
{
    if s.len() == 0 {
        Some(Seq::empty())
    } else if s.len() == 1 {
        None
    } else {
        match (hex_value(s[0]), hex_value(s[1]), hex_decoded(s.skip(2))) {
            (Some(a), Some(b), Some(rest)) => Some(seq![(a * 16 + b) as u8] + rest),
            _ => None,
        }
    }
}

/// The message of `hex::FromHexError` for text that does not decode.
pub uninterp spec fn hex_decode_error(s: Seq<char>) -> Seq<char>;

/// `hex::decode`: the bytes of hexadecimal text of either case; it fails on
/// an odd length or a character that is no hexadecimal digit (as the
/// crate's source shows), with a message that is named.
#[verifier::external_body]
pub(crate) fn hex_decode(s: &str) -> (r: Result<Vec<u8>, String>)
    ensures
        match r {
            Ok(v) => hex_decoded(s@) == Some(v@),
            Err(e) => hex_decoded(s@) is None && e@ == hex_decode_error(s@),
        },
{
    hex::decode(s).map_err(|e| e.to_string())
}

} // verus!
