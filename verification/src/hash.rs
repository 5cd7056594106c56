//! Checksum specifications and their verifier.
//!
//! A package record carries at most one expected digest, chosen with fixed
//! priority MD5 > SHA1 > SHA256 > None when the record is parsed. The
//! verifier renders the computed digest as lowercase hex and compares it
//! with the expected value case-insensitively; a record without a checksum
//! never matches, so it is always downloaded again.
use vstd::prelude::*;

use crate::text::lower_code;
use sha1::Digest;
use crate::text::lower_codes;
use crate::text::lower_code_exec;

verus! {

/// The 16-byte MD5 digest of a byte sequence.
pub uninterp spec fn md5_of(bytes: Seq<u8>) -> Seq<u8>;

/// The 20-byte SHA-1 digest of a byte sequence.
pub uninterp spec fn sha1_of(bytes: Seq<u8>) -> Seq<u8>;

/// The 32-byte SHA-256 digest of a byte sequence.
pub uninterp spec fn sha256_of(bytes: Seq<u8>) -> Seq<u8>;

/// ASCII code of the lowercase hex digit for the nibble `n`.
pub open spec fn hex_code(n: u8) -> int
    recommends
        n < 16,
{
    if n < 10 {
        n + 48
    } else {
        n + 87
    }
}

/// Lowercase hex rendering of a byte sequence, as a sequence of ASCII
/// codes: two digits per byte, high nibble first.
pub open spec fn hex_codes_of(bytes: Seq<u8>) -> Seq<int> {
    Seq::new(
        bytes.len() * 2,
        |j: int| if j % 2 == 0 {
            hex_code(bytes[j / 2] / 16)
        } else {
            hex_code(bytes[j / 2] % 16)
        },
    )
}

/// The checksum specification of one package record: which digest
/// algorithm to use, with the expected hex value, or no checksum at all.
#[derive(Debug)]
pub enum MyHash {
    MD5(String),
    SHA256(String),
    SHA1(String),
    NoChecksum,
}

/// Whether the expected hex value of `h` matches the digest of `bytes`,
/// compared case-insensitively. A record without a checksum never matches.
pub open spec fn checksum_matches(h: MyHash, bytes: Seq<u8>) -> bool {
    match h {
        MyHash::MD5(e) => lower_codes(e@) == hex_codes_of(md5_of(bytes)),
        MyHash::SHA256(e) => lower_codes(e@) == hex_codes_of(sha256_of(bytes)),
        MyHash::SHA1(e) => lower_codes(e@) == hex_codes_of(sha1_of(bytes)),
        MyHash::NoChecksum => false,
    }
}

/// Relies on md5::compute: the 16-byte MD5 digest, a function of the
/// input bytes alone.
#[verifier::external_body]
fn md5_digest(bytes: &Vec<u8>) -> (r: Vec<u8>)
    ensures
        r@ == md5_of(bytes@),
        r@.len() == 16,
{
    md5::compute(bytes.as_slice()).0.to_vec()
}

/// Relies on sha1::Sha1 through the digest interface: the 20-byte SHA-1
/// digest, a function of the input bytes alone.
#[verifier::external_body]
fn sha1_digest(bytes: &Vec<u8>) -> (r: Vec<u8>)
    ensures
        r@ == sha1_of(bytes@),
        r@.len() == 20,
{
    let mut hasher = sha1::Sha1::new();
    hasher.update(bytes.as_slice());
    hasher.finalize().to_vec()
}

/// Relies on sha2::Sha256 through the digest interface: the 32-byte
/// SHA-256 digest, a function of the input bytes alone.
#[verifier::external_body]
fn sha256_digest(bytes: &Vec<u8>) -> (r: Vec<u8>)
    ensures
        r@ == sha256_of(bytes@),
        r@.len() == 32,
{
    let mut hasher = sha2::Sha256::new();
    hasher.update(bytes.as_slice());
    hasher.finalize().to_vec()
}

/// Compares an expected hex string with a digest: true exactly when the
/// ASCII-lowercase folding of `expected` is the lowercase hex rendering
/// of `digest`.
fn hex_matches(expected: &str, digest: &Vec<u8>) -> (r: bool)
    ensures
        r == (lower_codes(expected@) == hex_codes_of(digest@)),
{
    let n = expected.unicode_len();
    if digest.len() > usize::MAX / 2 || n != 2 * digest.len() {
        assert(lower_codes(expected@).len() != hex_codes_of(digest@).len());
        return false;
    }
    let mut i: usize = 0;
    while i < digest.len()
        invariant
            n == expected@.len(),
            n == 2 * digest@.len(),
            i <= digest@.len(),
            forall|j: int| 0 <= j < 2 * i ==> lower_codes(expected@)[j] == hex_codes_of(digest@)[j],
        decreases digest@.len() - i,
    {
        let b = digest[i];
        let hi: u8 = b / 16;
        let lo: u8 = b % 16;
        let hi_code: u32 = if hi < 10 {
            hi as u32 + 48
        } else {
            hi as u32 + 87
        };
        let lo_code: u32 = if lo < 10 {
            lo as u32 + 48
        } else {
            lo as u32 + 87
        };
        let e_hi = lower_code_exec(expected.get_char(2 * i));
        let e_lo = lower_code_exec(expected.get_char(2 * i + 1));
        assert(hex_codes_of(digest@)[2 * i as int] == hex_code(hi));
        assert(hex_codes_of(digest@)[2 * i as int + 1] == hex_code(lo));
        if e_hi != hi_code {
            assert(lower_codes(expected@)[2 * i as int] != hex_codes_of(digest@)[2 * i as int]);
            return false;
        }
        if e_lo != lo_code {
            assert(lower_codes(expected@)[2 * i as int + 1] != hex_codes_of(digest@)[2 * i as int
                + 1]);
            return false;
        }
        assert(lower_codes(expected@)[2 * i as int] == hex_codes_of(digest@)[2 * i as int]);
        assert(lower_codes(expected@)[2 * i as int + 1] == hex_codes_of(digest@)[2 * i as int + 1]);
        i = i + 1;
    }
    assert(lower_codes(expected@) =~= hex_codes_of(digest@)) by {
        assert(forall|j: int|
            0 <= j < 2 * digest@.len() ==> lower_codes(expected@)[j] == hex_codes_of(digest@)[j]);
    }
    true
}

impl MyHash {
    /// Computes the digest of `file_bytes` that this checksum
    /// specification names and compares it with the expected hex value,
    /// case-insensitively; `None` never matches.
    pub fn validate(&self, file_bytes: &Vec<u8>) -> (r: bool)
        ensures
            r == checksum_matches(*self, file_bytes@),
    {
        match self {
            MyHash::MD5(h) => {
                let d = md5_digest(file_bytes);
                hex_matches(h.as_str(), &d)
            },
            MyHash::SHA256(h) => {
                let d = sha256_digest(file_bytes);
                hex_matches(h.as_str(), &d)
            },
            MyHash::SHA1(h) => {
                let d = sha1_digest(file_bytes);
                hex_matches(h.as_str(), &d)
            },
            MyHash::NoChecksum => false,
        }
    }
}

} // verus!
