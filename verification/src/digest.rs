//! Content fingerprints: SHA-1 and SHA-256 digests and their lower-case
//! hexadecimal form.
use vstd::prelude::*;
use vstd::string::StringSliceAdditionalSpecFns;

use crate::text::{push_str_utf8, string_from_chars};

verus! {

broadcast use vstd::string::group_string_axioms;

/// Names the SHA-256 digest of a byte sequence.
pub uninterp spec fn sha256_of(data: Seq<u8>) -> Seq<u8>;

/// Names the SHA-1 digest of a byte sequence.
pub uninterp spec fn sha1_of(data: Seq<u8>) -> Seq<u8>;

/// Calls `sha2::Sha256::digest`. The contract claims that the result is the
/// named `sha256_of` of the data and that it has the 32 bytes of a SHA-256
/// output.
#[verifier::external_body]
pub(crate) fn sha256(data: &[u8]) -> (r: Vec<u8>)
    ensures
        r@ == sha256_of(data@),
        r@.len() == 32,
{
    <sha2::Sha256 as sha2::Digest>::digest(data).to_vec()
}

/// Calls `sha1::Sha1::digest`. The contract claims that the result is the
/// named `sha1_of` of the data and that it has the 20 bytes of a SHA-1 output.
#[verifier::external_body]
pub(crate) fn sha1(data: &[u8]) -> (r: Vec<u8>)
    ensures
        r@ == sha1_of(data@),
        r@.len() == 20,
{
    <sha1::Sha1 as sha1::Digest>::digest(data).to_vec()
}

/// The lower-case hexadecimal digit of a value below 16.
pub open spec fn hex_digit(v: u8) -> char {
    if v < 10 {
        ((v + 48) as u8) as char
    } else {
        ((v + 87) as u8) as char
    }
}

/// The lower-case hexadecimal form of bytes: two digits per byte.
pub open spec fn hex_lower(b: Seq<u8>) -> Seq<char>
    decreases b.len(),
{
    if b.len() == 0 {
        Seq::empty()
    } else {
        hex_lower(b.drop_last()) + seq![hex_digit(b.last() / 16), hex_digit(b.last() % 16)]
    }
}

/// The hexadecimal form has two digits per byte.
pub proof fn lemma_hex_lower_len(b: Seq<u8>)
    ensures
        hex_lower(b).len() == 2 * b.len(),
    decreases b.len(),
{
    if b.len() > 0 {
        lemma_hex_lower_len(b.drop_last());
    }
}

/// A lower-case hexadecimal digit.
pub open spec fn is_hex_char(c: char) -> bool {
    ('0' <= c && c <= '9') || ('a' <= c && c <= 'f')
}

/// Text made of lower-case hexadecimal digits only.
pub open spec fn is_hex_text(t: Seq<char>) -> bool {
    forall|i: int| 0 <= i < t.len() ==> is_hex_char(#[trigger] t[i])
}

/// The hexadecimal form holds only lower-case hexadecimal digits.
pub proof fn lemma_hex_lower_digits(b: Seq<u8>)
    ensures
        forall|i: int| 0 <= i < hex_lower(b).len() ==> is_hex_char(#[trigger] hex_lower(b)[i]),
    decreases b.len(),
{
    if b.len() > 0 {
        lemma_hex_lower_digits(b.drop_last());
        let h = hex_lower(b);
        let p = hex_lower(b.drop_last());
        lemma_hex_lower_len(b.drop_last());
        let hi = b.last() / 16;
        let lo = b.last() % 16;
        assert(hex_digit(hi) == if hi < 10 { ((hi + 48) as u8) as char } else { ((hi + 87) as u8) as char });
        assert(is_hex_char(hex_digit(hi))) by {
            assert(hi < 16);
        }
        assert(is_hex_char(hex_digit(lo))) by {
            assert(lo < 16);
        }
        assert forall|i: int| 0 <= i < h.len() implies is_hex_char(#[trigger] h[i]) by {
            if i < p.len() {
                assert(h[i] == p[i]);
            } else if i == p.len() {
                assert(h[i] == hex_digit(hi));
            } else {
                assert(h[i] == hex_digit(lo));
            }
        }
    }
}

fn hex_char(v: u8) -> (c: char)
    requires
        v < 16,
    ensures
        c == hex_digit(v),
{
    if v < 10 {
        (v + 48) as char
    } else {
        (v + 87) as char
    }
}

/// The lower-case hexadecimal form of the bytes.
pub fn to_hex_lower(b: &[u8]) -> (s: String)
    ensures
        s@ == hex_lower(b@),
{
    let mut out: Vec<char> = Vec::new();
    let n = b.len();
    for i in 0..n
        invariant
            n == b@.len(),
            out@ == hex_lower(b@.take(i as int)),
    {
        let x = b[i];
        out.push(hex_char(x / 16));
        out.push(hex_char(x % 16));
        assert(b@.take(i + 1).drop_last() =~= b@.take(i as int));
        assert(out@ =~= hex_lower(b@.take(i + 1)));
    }
    assert(b@.take(n as int) =~= b@);
    string_from_chars(out.as_slice())
}

/// The lower-case hexadecimal SHA-256 of a text's UTF-8 bytes.
pub fn fingerprint(value: &str) -> (s: String)
    ensures
        s@ == hex_lower(sha256_of(value.spec_bytes())),
        s@.len() == 64,
        is_hex_text(s@),
{
    let digest = sha256(value.as_bytes());
    proof {
        lemma_hex_lower_len(digest@);
        lemma_hex_lower_digits(digest@);
    }
    to_hex_lower(digest.as_slice())
}

/// The lower-case hexadecimal SHA-256 of bytes.
pub fn fingerprint_bytes(value: &[u8]) -> (s: String)
    ensures
        s@ == hex_lower(sha256_of(value@)),
        s@.len() == 64,
{
    let digest = sha256(value);
    proof {
        lemma_hex_lower_len(digest@);
    }
    to_hex_lower(digest.as_slice())
}

/// The bytes that a salted fingerprint hashes: the salt, a zero byte, then
/// the value.
pub open spec fn salted_input(salt: Seq<u8>, value: Seq<u8>) -> Seq<u8> {
    salt + seq![0u8] + value
}

/// The lower-case hexadecimal SHA-256 of the salt, a zero byte and the value.
pub fn salted_fingerprint(salt: &str, value: &str) -> (s: String)
    ensures
        s@ == hex_lower(sha256_of(salted_input(salt.spec_bytes(), value.spec_bytes()))),
{
    let mut data: Vec<u8> = Vec::new();
    push_str_utf8(&mut data, salt);
    data.push(0);
    push_str_utf8(&mut data, value);
    assert(data@ =~= salted_input(salt.spec_bytes(), value.spec_bytes()));
    let digest = sha256(data.as_slice());
    to_hex_lower(digest.as_slice())
}

} // verus!
