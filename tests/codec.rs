use anchor_lang::solana_program::hash::hash;
use keep_it_real::codec::discriminator;
use keep_it_real::record::RealityProof;

fn sample(cid: &str, ts: i64) -> RealityProof {
    RealityProof {
        owner: [1u8; 32],
        image_hash: [2u8; 32],
        ipfs_cid: cid.to_string(),
        app_signature: [3u8; 64],
        timestamp: ts,
        is_verified: true,
    }
}

#[test]
fn discriminator_is_hash_prefix() {
    let d = discriminator();
    let full = hash(b"account:RealityProof").to_bytes();
    assert_eq!(&d[..], &full[..8]);
    assert_ne!(&d[..], &b"account:"[..]);
}

#[test]
fn encode_lays_out_fields() {
    let p = sample("bafy", -2);
    let bytes = p.encode();
    assert_eq!(bytes.len(), RealityProof::LEN);
    assert_eq!(&bytes[0..8], &discriminator()[..]);
    assert_eq!(&bytes[8..40], &[1u8; 32][..]);
    assert_eq!(&bytes[40..72], &[2u8; 32][..]);
    assert_eq!(&bytes[72..76], &[4u8, 0, 0, 0][..]);
    assert_eq!(&bytes[76..80], &b"bafy"[..]);
    assert_eq!(&bytes[80..144], &[3u8; 64][..]);
    assert_eq!(&bytes[144..152], &(-2i64).to_le_bytes()[..]);
    assert_eq!(bytes[152], 1);
    assert!(bytes[153..].iter().all(|b| *b == 0));
}

#[test]
fn encode_full_locator_fills_account() {
    let cid = "z".repeat(64);
    let mut p = sample(&cid, 1_700_000_000);
    p.is_verified = false;
    let bytes = p.encode();
    assert_eq!(bytes.len(), 213);
    assert_eq!(&bytes[72..76], &[64u8, 0, 0, 0][..]);
    assert_eq!(&bytes[76..140], cid.as_bytes());
    assert_eq!(&bytes[204..212], &1_700_000_000i64.to_le_bytes()[..]);
    assert_eq!(bytes[212], 0);
}
