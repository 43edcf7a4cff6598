//! SHA-256, and the commitment to a board that it gives.

use crate::commitment::Commitment;
use sha2::Digest;
use sha2::Sha256;
use vstd::prelude::*;
use vstd::string::*;
use vstd::utf8::encode_utf8;

verus! {

/// The SHA-256 digest of a byte string, as `sha2::Sha256::digest` computes
/// it.
pub uninterp spec fn sha256(data: Seq<u8>) -> Seq<u8>;

/// Calls `sha2::Sha256::digest` on the bytes and copies the 32 bytes of the
/// output into an array. The result is a function of the bytes alone, which
/// the contract records under the name `sha256`; nothing more is claimed.
#[verifier::external_body]
pub(crate) fn sha256_digest(data: &[u8]) -> (digest: [u8; 32])
    ensures
        digest@ == sha256(data@),
{
    Sha256::digest(data).into()
}

/// The commitment to a board under a secret nonce: the SHA-256 digest of the
/// board's squares followed by the nonce's UTF-8 bytes.
pub open spec fn commitment_of(board: Seq<u8>, random: Seq<char>) -> Seq<u8> {
    sha256(board + encode_utf8(random))
}

/// One byte string followed by another.
pub fn appended(head: &Vec<u8>, tail: &Vec<u8>) -> (all: Vec<u8>)
    ensures
        all@ == head@ + tail@,
{
    let mut all: Vec<u8> = Vec::new();
    let mut i: usize = 0;
    while i < head.len()
        invariant
            i <= head.len(),
            all@ == head@.take(i as int),
        decreases head.len() - i,
    {
        all.push(head[i]);
        i += 1;
        assert(all@ =~= head@.take(i as int));
    }
    assert(head@.take(head.len() as int) =~= head@);
    let mut k: usize = 0;
    while k < tail.len()
        invariant
            k <= tail.len(),
            all@ == head@ + tail@.take(k as int),
        decreases tail.len() - k,
    {
        all.push(tail[k]);
        k += 1;
        assert(all@ =~= head@ + tail@.take(k as int));
    }
    assert(tail@.take(tail.len() as int) =~= tail@);
    all
}

/// Commits to a board under a secret nonce.
pub fn commit_board(board: &Vec<u8>, random: &String) -> (c: Commitment)
    ensures
        c@ == commitment_of(board@, random@),
{
    let nonce: Vec<u8> = random.as_str().as_bytes_vec();
    let data: Vec<u8> = appended(board, &nonce);
    Commitment::new(sha256_digest(data.as_slice()))
}

} // verus!
