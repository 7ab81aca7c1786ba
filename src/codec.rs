use vstd::prelude::*;
use anchor_lang::solana_program::hash::hash;
use vstd::utf8::encode_utf8;
use crate::record::{RealityProof, MAX_CID_LEN};

verus! {

/// The SHA-256 digest of `data`.
pub uninterp spec fn sha256_of(data: Seq<u8>) -> Seq<u8>;

/// Relies on `solana_program::hash::hash`: the SHA-256 digest of its input,
/// a function of the input bytes alone.
#[verifier::external_body]
fn sha256(data: &[u8]) -> (r: [u8; 32])
    ensures
        r@ == sha256_of(data@),
{
    hash(data).to_bytes()
}

/// Bytes of the name that an account type's discriminator is hashed from.
pub open spec fn discriminator_preimage() -> Seq<u8> {
    encode_utf8("account:RealityProof"@)
}

/// The first 8 bytes of the SHA-256 digest of `account:RealityProof`: the
/// header that marks an account as holding a proof.
pub fn discriminator() -> (r: [u8; 8])
    ensures
        r@ == sha256_of(discriminator_preimage()).subrange(0, 8),
{
    let preimage: &str = "account:RealityProof";
    let digest = sha256(preimage.as_bytes());
    let r: [u8; 8] = [digest[0], digest[1], digest[2], digest[3], digest[4], digest[5], digest[6], digest[7]];
    assert(r@ =~= digest@.subrange(0, 8));
    r
}

/// `n` little-endian bytes of `v`, the low byte first.
pub open spec fn le_bytes(v: nat, n: nat) -> Seq<u8>
    decreases n,
{
    if n == 0 {
        seq![]
    } else {
        seq![(v % 256) as u8] + le_bytes(v / 256, (n - 1) as nat)
    }
}

/// A record's serialized fields, after the header: owner, image hash, the
/// locator as a 4-byte length and its UTF-8 bytes, signature, timestamp as 8
/// two's-complement bytes, and the verified flag as one byte.
pub open spec fn record_fields(p: RealityProof) -> Seq<u8> {
    p.owner@ + p.image_hash@ + le_bytes(encode_utf8(p.ipfs_cid@).len(), 4)
        + encode_utf8(p.ipfs_cid@) + p.app_signature@ + le_bytes((p.timestamp as u64) as nat, 8)
        + seq![if p.is_verified { 1u8 } else { 0u8 }]
}

/// The full account image of a record: header, fields, then zeros up to
/// `RealityProof::LEN` bytes.
pub open spec fn record_image(header: Seq<u8>, p: RealityProof) -> Seq<u8> {
    let body = header + record_fields(p);
    body + Seq::new((RealityProof::LEN - body.len()) as nat, |i: int| 0u8)
}

fn push_all(out: &mut Vec<u8>, src: &[u8])
    ensures
        final(out)@ == old(out)@ + src@,
{
    let mut i: usize = 0;
    while i < src.len()
        invariant
            i <= src@.len(),
            out@ == old(out)@ + src@.subrange(0, i as int),
        decreases src@.len() - i,
    {
        out.push(src[i]);
        i = i + 1;
        assert(src@.subrange(0, i as int) =~= src@.subrange(0, i - 1) + seq![src@[i - 1]]);
    }
    assert(src@.subrange(0, i as int) =~= src@);
}

fn push_le(out: &mut Vec<u8>, v: u64, n: usize)
    ensures
        final(out)@ == old(out)@ + le_bytes(v as nat, n as nat),
    decreases n,
{
    if n == 0 {
        assert(old(out)@ + le_bytes(v as nat, 0) =~= old(out)@);
        return;
    }
    out.push((v % 256) as u8);
    push_le(out, v / 256, n - 1);
    assert(le_bytes(v as nat, n as nat) == seq![(v % 256) as u8] + le_bytes((v / 256) as nat, (n - 1) as nat));
    assert(final(out)@ =~= old(out)@ + le_bytes(v as nat, n as nat));
}

proof fn lemma_le_len(v: nat, n: nat)
    ensures
        le_bytes(v, n).len() == n,
    decreases n,
{
    if n > 0 {
        lemma_le_len(v / 256, (n - 1) as nat);
    }
}

impl RealityProof {
    /// Lays the record out in its account of `RealityProof::LEN` bytes.
    pub fn encode(&self) -> (r: Vec<u8>)
        requires
            encode_utf8(self.ipfs_cid@).len() <= MAX_CID_LEN,
        ensures
            r@ == record_image(sha256_of(discriminator_preimage()).subrange(0, 8), *self),
            r@.len() == RealityProof::LEN,
    {
        let mut out: Vec<u8> = Vec::new();
        let header = discriminator();
        push_all(&mut out, header.as_slice());
        push_all(&mut out, self.owner.as_slice());
        push_all(&mut out, self.image_hash.as_slice());
        let cid: &[u8] = self.ipfs_cid.as_str().as_bytes();
        push_le(&mut out, cid.len() as u64, 4);
        push_all(&mut out, cid);
        push_all(&mut out, self.app_signature.as_slice());
        push_le(&mut out, self.timestamp as u64, 8);
        out.push(if self.is_verified { 1u8 } else { 0u8 });
        proof {
            lemma_le_len(cid@.len() as nat, 4);
            lemma_le_len((self.timestamp as u64) as nat, 8);
            assert(out@ =~= header@ + record_fields(*self));
        }
        let ghost body = out@;
        while out.len() < RealityProof::LEN
            invariant
                body.len() <= out@.len() <= RealityProof::LEN,
                out@ == body + Seq::new((out@.len() - body.len()) as nat, |i: int| 0u8),
            decreases RealityProof::LEN - out@.len(),
        {
            out.push(0u8);
            assert(out@ =~= body + Seq::new((out@.len() - body.len()) as nat, |i: int| 0u8));
        }
        out
    }
}

} // verus!
