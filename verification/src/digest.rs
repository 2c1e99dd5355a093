//! SHA-256 digests of installer bytes, in the `sha256:<hex>` form that the
//! GitHub release API reports.

use vstd::prelude::*;
use sha2::{Digest, Sha256};
use crate::encoding::{lower_hex, push_lower_hex};
use crate::text::{chars_eq, chars_of};

verus! {

/// The SHA-256 digest of `data`.
pub uninterp spec fn spec_sha256(data: Seq<u8>) -> Seq<u8>;

/// `Sha256::digest` (sha2): the 32-byte SHA-256 digest of `data`. The
/// contract names the digest as a function of the bytes and states its
/// length; the hash function itself is not restated.
#[verifier::external_body]
fn sha256(data: &[u8]) -> (d: Vec<u8>)
    ensures
        d@ == spec_sha256(data@),
        d@.len() == 32,
{
    Sha256::digest(data).to_vec()
}

/// `format!("sha256:{:x}", Sha256::digest(data))`.
pub open spec fn sha256_label(data: Seq<u8>) -> Seq<char> {
    "sha256:"@ + lower_hex(spec_sha256(data))
}

/// The `sha256:<lower-case hex>` label of `data`.
pub fn sha256_label_of(data: &[u8]) -> (label: Vec<char>)
    ensures
        label@ == sha256_label(data@),
{
    let mut label = chars_of("sha256:");
    let digest = sha256(data);
    push_lower_hex(&mut label, digest.as_slice());
    label
}

/// Whether the SHA-256 label of `data` is exactly `expected`.
pub fn digest_matches(data: &[u8], expected: &str) -> (r: bool)
    ensures
        r == (sha256_label(data@) == expected@),
{
    let label = sha256_label_of(data);
    let want = chars_of(expected);
    chars_eq(label.as_slice(), want.as_slice())
}

} // verus!
