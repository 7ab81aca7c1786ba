use vstd::prelude::*;
use anchor_lang::solana_program::pubkey::Pubkey;

verus! {

/// Seed prefix of every proof address.
pub const PROOF_SEED: [u8; 6] = [109, 101, 109, 111, 114, 121];

/// The program address that the ledger derives from the seeds
/// `[prefix, owner, hash]` under `program`, if one exists.
pub uninterp spec fn program_address_of(prefix: Seq<u8>, owner: Seq<u8>, hash: Seq<u8>, program: Seq<u8>) -> Option<Seq<u8>>;

/// Relies on `Pubkey::try_find_program_address` (solana-program): a pure
/// function of the seeds and the program id that returns the first off-curve
/// address found while the bump seed counts down from 255, or `None`.
#[verifier::external_body]
fn find_program_address(prefix: &[u8], owner: &[u8; 32], hash: &[u8; 32], program: &[u8; 32]) -> (r: Option<[u8; 32]>)
    ensures
        r is None <==> program_address_of(prefix@, owner@, hash@, program@) is None,
        r is Some ==> program_address_of(prefix@, owner@, hash@, program@) == Some(r->Some_0@),
{
    let program_id = Pubkey::new_from_array(*program);
    let seeds: [&[u8]; 3] = [prefix, owner, hash];
    Pubkey::try_find_program_address(&seeds, &program_id).map(|found| found.0.to_bytes())
}

/// The deterministic address of the proof for `(owner, image_hash)` under `program`.
pub open spec fn proof_address_of(owner: [u8; 32], image_hash: [u8; 32], program: [u8; 32]) -> Option<Seq<u8>> {
    program_address_of(PROOF_SEED@, owner@, image_hash@, program@)
}

/// Derives the address at which the proof for `(owner, image_hash)` is stored.
pub fn proof_address(owner: &[u8; 32], image_hash: &[u8; 32], program: &[u8; 32]) -> (r: Option<[u8; 32]>)
    ensures
        r is None <==> proof_address_of(*owner, *image_hash, *program) is None,
        r is Some ==> proof_address_of(*owner, *image_hash, *program) == Some(r->Some_0@),
{
    let prefix: [u8; 6] = PROOF_SEED;
    find_program_address(prefix.as_slice(), owner, image_hash, program)
}

/// Whether two keys hold the same bytes.
pub fn same_key(a: &[u8; 32], b: &[u8; 32]) -> (r: bool)
    ensures
        r == (a@ == b@),
{
    let mut i: usize = 0;
    while i < 32
        invariant
            i <= 32,
            a@.len() == 32,
            b@.len() == 32,
            forall|k: int| 0 <= k < i ==> a@[k] == b@[k],
        decreases 32 - i,
    {
        if a[i] != b[i] {
            return false;
        }
        i = i + 1;
    }
    assert(a@ =~= b@);
    true
}

} // verus!
