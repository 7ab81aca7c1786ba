use vstd::prelude::*;
use crate::address::same_key;
use crate::record::{ErrorCode, RealityProof, STORAGE_FEE};
use crate::validate::{validate_proof_input, validation_of};

verus! {

/// A ledger account that holds lamports.
pub struct Wallet {
    pub key: [u8; 32],
    pub lamports: u64,
}

/// A live proof with the storage deposit it holds.
pub struct ProofAccount {
    pub lamports: u64,
    pub data: RealityProof,
}

/// The accounts a mint works on: the minting user (payer and owner), the
/// treasury that takes the preservation fee, the reference clock, and the
/// storage deposit that the user pays into the new record.
pub struct MintMemory {
    pub user: Wallet,
    pub dao_treasury: Wallet,
    pub unix_timestamp: i64,
    pub rent_deposit: u64,
}

/// The accounts a transfer works on: the proof's address and the signer.
pub struct TransferMemory {
    pub reality_proof: [u8; 32],
    pub user: [u8; 32],
}

/// The accounts a revoke works on: the proof's address and the signer, who
/// takes back the storage deposit.
pub struct RevokeMemory {
    pub reality_proof: [u8; 32],
    pub user: Wallet,
}

/// The notification published on every successful mint.
#[derive(Clone, Copy, Debug, PartialEq, Eq)]
pub struct MemoryMinted {
    pub owner: [u8; 32],
    pub image_hash: [u8; 32],
    pub timestamp: i64,
}

/// The proof store: at most one live proof per address.
pub struct Registry {
    program_id: [u8; 32],
    accounts: Vec<([u8; 32], ProofAccount)>,
}

/// No two accounts share an address.
pub open spec fn keys_unique(s: Seq<([u8; 32], ProofAccount)>) -> bool {
    forall|i: int, j: int| 0 <= i < s.len() && 0 <= j < s.len() && i != j ==> s[i].0@ != s[j].0@
}

pub open spec fn holds_key(s: Seq<([u8; 32], ProofAccount)>, a: Seq<u8>) -> bool {
    exists|i: int| 0 <= i < s.len() && s[i].0@ == a
}

/// The store as a map from address to account.
pub open spec fn accounts_map(s: Seq<([u8; 32], ProofAccount)>) -> Map<Seq<u8>, ProofAccount> {
    Map::new(
        |a: Seq<u8>| holds_key(s, a),
        |a: Seq<u8>| s[choose|i: int| 0 <= i < s.len() && s[i].0@ == a].1,
    )
}

/// The record that a successful mint writes.
pub open spec fn minted_account(
    ctx: MintMemory,
    image_hash: [u8; 32],
    ipfs_cid: String,
    app_signature: [u8; 64],
    timestamp: i64,
) -> ProofAccount {
    ProofAccount {
        lamports: ctx.rent_deposit,
        data: RealityProof {
            owner: ctx.user.key,
            image_hash,
            ipfs_cid,
            app_signature,
            timestamp,
            is_verified: true,
        },
    }
}

/// The payer can pay the fee and the record's storage deposit, and the
/// treasury can take the fee.
pub open spec fn fee_ok(ctx: MintMemory) -> bool {
    ctx.user.lamports >= STORAGE_FEE + ctx.rent_deposit && ctx.dao_treasury.lamports + STORAGE_FEE <= u64::MAX
}

/// The accounts after the fee has moved from the user to the treasury and
/// the storage deposit from the user to the new record.
pub open spec fn fee_paid(ctx: MintMemory) -> MintMemory {
    MintMemory {
        user: Wallet { key: ctx.user.key, lamports: (ctx.user.lamports - STORAGE_FEE - ctx.rent_deposit) as u64 },
        dao_treasury: Wallet {
            key: ctx.dao_treasury.key,
            lamports: (ctx.dao_treasury.lamports + STORAGE_FEE) as u64,
        },
        unix_timestamp: ctx.unix_timestamp,
        rent_deposit: ctx.rent_deposit,
    }
}

/// The outcome of a mint at `address`: validation first, then uniqueness,
/// then the fee.
pub open spec fn mint_outcome(
    store: Map<Seq<u8>, ProofAccount>,
    ctx: MintMemory,
    address: Seq<u8>,
    ipfs_cid: Seq<char>,
    timestamp: i64,
) -> Result<(), ErrorCode> {
    if validation_of(ipfs_cid, timestamp, ctx.unix_timestamp) is Err {
        validation_of(ipfs_cid, timestamp, ctx.unix_timestamp)
    } else if store.contains_key(address) {
        Err(ErrorCode::DuplicateProof)
    } else if !fee_ok(ctx) {
        Err(ErrorCode::FeePaymentFailed)
    } else {
        Ok(())
    }
}

/// The outcome of a transfer or a revoke of the proof at `address` by `signer`.
pub open spec fn owner_check(store: Map<Seq<u8>, ProofAccount>, address: Seq<u8>, signer: [u8; 32]) -> Result<(), ErrorCode> {
    if !store.contains_key(address) {
        Err(ErrorCode::NotFound)
    } else if store[address].data.owner@ != signer@ {
        Err(ErrorCode::Unauthorized)
    } else {
        Ok(())
    }
}

/// The account at `address` with its owner replaced.
pub open spec fn reowned(acct: ProofAccount, new_owner: [u8; 32]) -> ProofAccount {
    ProofAccount {
        lamports: acct.lamports,
        data: RealityProof {
            owner: new_owner,
            image_hash: acct.data.image_hash,
            ipfs_cid: acct.data.ipfs_cid,
            app_signature: acct.data.app_signature,
            timestamp: acct.data.timestamp,
            is_verified: acct.data.is_verified,
        },
    }
}

proof fn lemma_entry(s: Seq<([u8; 32], ProofAccount)>, i: int)
    requires
        keys_unique(s),
        0 <= i < s.len(),
    ensures
        accounts_map(s).contains_key(s[i].0@),
        accounts_map(s)[s[i].0@] == s[i].1,
{
    let a = s[i].0@;
    assert(holds_key(s, a));
    let j = choose|j: int| 0 <= j < s.len() && s[j].0@ == a;
    assert(j == i);
}

proof fn lemma_push(s: Seq<([u8; 32], ProofAccount)>, acct: ([u8; 32], ProofAccount))
    requires
        keys_unique(s),
        !holds_key(s, acct.0@),
    ensures
        keys_unique(s.push(acct)),
        accounts_map(s.push(acct)) == accounts_map(s).insert(acct.0@, acct.1),
{
    let t = s.push(acct);
    assert forall|i: int, j: int| 0 <= i < t.len() && 0 <= j < t.len() && i != j implies t[i].0@ != t[j].0@ by {
        if i < s.len() && j < s.len() {
        } else if i < s.len() {
            assert(s[i].0@ == t[i].0@);
        } else {
            assert(s[j].0@ == t[j].0@);
        }
    }
    assert forall|a: Seq<u8>| #[trigger] holds_key(t, a) == (holds_key(s, a) || a == acct.0@) by {
        if holds_key(s, a) {
            let i = choose|i: int| 0 <= i < s.len() && s[i].0@ == a;
            assert(t[i].0@ == a);
        }
        if a == acct.0@ {
            assert(t[s.len() as int].0@ == a);
        }
    }
    assert forall|a: Seq<u8>| holds_key(t, a) implies accounts_map(t)[a] == accounts_map(s).insert(acct.0@, acct.1)[a] by {
        let i = choose|i: int| 0 <= i < t.len() && t[i].0@ == a;
        lemma_entry(t, i);
        if i < s.len() {
            assert(s[i] == t[i]);
            lemma_entry(s, i);
        }
    }
    assert(accounts_map(t) =~= accounts_map(s).insert(acct.0@, acct.1));
}

proof fn lemma_update(s: Seq<([u8; 32], ProofAccount)>, i: int, acct: ([u8; 32], ProofAccount))
    requires
        keys_unique(s),
        0 <= i < s.len(),
        acct.0@ == s[i].0@,
    ensures
        keys_unique(s.update(i, acct)),
        accounts_map(s.update(i, acct)) == accounts_map(s).insert(acct.0@, acct.1),
{
    let t = s.update(i, acct);
    assert forall|a: Seq<u8>| #[trigger] holds_key(t, a) == holds_key(s, a) by {
        if holds_key(s, a) {
            let k = choose|k: int| 0 <= k < s.len() && s[k].0@ == a;
            assert(t[k].0@ == a);
        }
        if holds_key(t, a) {
            let k = choose|k: int| 0 <= k < t.len() && t[k].0@ == a;
            assert(s[k].0@ == a);
        }
    }
    assert forall|a: Seq<u8>| holds_key(t, a) implies accounts_map(t)[a] == accounts_map(s).insert(acct.0@, acct.1)[a] by {
        let k = choose|k: int| 0 <= k < t.len() && t[k].0@ == a;
        lemma_entry(t, k);
        if k != i {
            lemma_entry(s, k);
        }
    }
    lemma_entry(s, i);
    assert(accounts_map(t) =~= accounts_map(s).insert(acct.0@, acct.1));
}

proof fn lemma_remove(s: Seq<([u8; 32], ProofAccount)>, i: int)
    requires
        keys_unique(s),
        0 <= i < s.len(),
    ensures
        keys_unique(s.remove(i)),
        accounts_map(s.remove(i)) == accounts_map(s).remove(s[i].0@),
{
    let t = s.remove(i);
    let gone = s[i].0@;
    assert forall|j: int, k: int| 0 <= j < t.len() && 0 <= k < t.len() && j != k implies t[j].0@ != t[k].0@ by {
        let sj = if j < i { j } else { j + 1 };
        let sk = if k < i { k } else { k + 1 };
        assert(t[j] == s[sj]);
        assert(t[k] == s[sk]);
    }
    assert forall|a: Seq<u8>| #[trigger] holds_key(t, a) == (holds_key(s, a) && a != gone) by {
        if holds_key(t, a) {
            let k = choose|k: int| 0 <= k < t.len() && t[k].0@ == a;
            let sk = if k < i { k } else { k + 1 };
            assert(t[k] == s[sk]);
        }
        if holds_key(s, a) && a != gone {
            let k = choose|k: int| 0 <= k < s.len() && s[k].0@ == a;
            let tk = if k < i { k } else { k - 1 };
            assert(t[tk] == s[k]);
        }
    }
    assert forall|a: Seq<u8>| holds_key(t, a) implies accounts_map(t)[a] == accounts_map(s)[a] by {
        let k = choose|k: int| 0 <= k < t.len() && t[k].0@ == a;
        let sk = if k < i { k } else { k + 1 };
        assert(t[k] == s[sk]);
        lemma_entry(t, k);
        lemma_entry(s, sk);
    }
    assert(accounts_map(t) =~= accounts_map(s).remove(gone));
}

impl View for Registry {
    type V = Map<Seq<u8>, ProofAccount>;

    closed spec fn view(&self) -> Map<Seq<u8>, ProofAccount> {
        accounts_map(self.accounts@)
    }
}

impl Registry {
    /// The registry's invariant: addresses are unique.
    pub closed spec fn wf(&self) -> bool {
        keys_unique(self.accounts@)
    }

    /// The id of the program under which addresses are derived.
    pub closed spec fn program(&self) -> [u8; 32] {
        self.program_id
    }

    /// An empty store for the program `program_id`.
    pub fn new(program_id: [u8; 32]) -> (r: Registry)
        ensures
            r.wf(),
            r@ == Map::<Seq<u8>, ProofAccount>::empty(),
            r.program() == program_id,
    {
        let r = Registry { program_id, accounts: Vec::new() };
        assert(r@ =~= Map::<Seq<u8>, ProofAccount>::empty());
        r
    }

    /// The program id.
    pub fn program_id(&self) -> (r: [u8; 32])
        ensures
            r == self.program(),
    {
        self.program_id
    }

    /// The number of live proofs.
    pub fn len(&self) -> (r: usize)
        requires
            self.wf(),
        ensures
            r == self@.len(),
    {
        proof {
            lemma_len(self.accounts@);
        }
        self.accounts.len()
    }

    fn find(&self, address: &[u8; 32]) -> (r: Option<usize>)
        requires
            self.wf(),
        ensures
            match r {
                Some(i) => i < self.accounts@.len() && self.accounts@[i as int].0@ == address@,
                None => !self@.contains_key(address@),
            },
    {
        let mut i: usize = 0;
        while i < self.accounts.len()
            invariant
                i <= self.accounts@.len(),
                forall|k: int| 0 <= k < i ==> self.accounts@[k].0@ != address@,
            decreases self.accounts@.len() - i,
        {
            if same_key(&self.accounts[i].0, address) {
                return Some(i);
            }
            i = i + 1;
        }
        None
    }

    /// The live proof at `address`, if any.
    pub fn get(&self, address: &[u8; 32]) -> (r: Option<&RealityProof>)
        requires
            self.wf(),
        ensures
            match r {
                Some(p) => self@.contains_key(address@) && *p == self@[address@].data,
                None => !self@.contains_key(address@),
            },
    {
        match self.find(address) {
            Some(i) => {
                proof {
                    lemma_entry(self.accounts@, i as int);
                }
                Some(&self.accounts[i].1.data)
            },
            None => None,
        }
    }

    /// The storage deposit held by the proof at `address`, if any.
    pub fn deposit(&self, address: &[u8; 32]) -> (r: Option<u64>)
        requires
            self.wf(),
        ensures
            match r {
                Some(v) => self@.contains_key(address@) && v == self@[address@].lamports,
                None => !self@.contains_key(address@),
            },
    {
        match self.find(address) {
            Some(i) => {
                proof {
                    lemma_entry(self.accounts@, i as int);
                }
                Some(self.accounts[i].1.lamports)
            },
            None => None,
        }
    }
}

proof fn lemma_len(s: Seq<([u8; 32], ProofAccount)>)
    requires
        keys_unique(s),
    ensures
        accounts_map(s).dom().finite(),
        accounts_map(s).len() == s.len(),
    decreases s.len(),
{
    if s.len() == 0 {
        assert(accounts_map(s) =~= Map::<Seq<u8>, ProofAccount>::empty());
    } else {
        let init = s.drop_last();
        let last = s.last();
        assert(keys_unique(init));
        assert(!holds_key(init, last.0@)) by {
            if holds_key(init, last.0@) {
                let k = choose|k: int| 0 <= k < init.len() && init[k].0@ == last.0@;
                assert(s[k].0@ == s[s.len() - 1].0@);
            }
        }
        lemma_len(init);
        lemma_push(init, last);
        assert(init.push(last) =~= s);
        assert(!accounts_map(init).contains_key(last.0@));
        assert(accounts_map(s).dom() =~= accounts_map(init).dom().insert(last.0@));
    }
}

impl Registry {
    /// Mints a proof at `address`, the address derived for
    /// `(ctx.user.key, image_hash)`. Validation comes first, then the
    /// uniqueness of the address, then the fee; on any failure nothing changes.
    pub fn mint_at(
        &mut self,
        ctx: &mut MintMemory,
        address: [u8; 32],
        image_hash: [u8; 32],
        ipfs_cid: String,
        app_signature: [u8; 64],
        timestamp: i64,
    ) -> (r: Result<MemoryMinted, ErrorCode>)
        requires
            old(self).wf(),
        ensures
            final(self).wf(),
            final(self).program() == old(self).program(),
            (r is Ok) == (mint_outcome(old(self)@, *old(ctx), address@, ipfs_cid@, timestamp) is Ok),
            r matches Ok(ev) ==> {
                &&& final(self)@ == old(self)@.insert(
                    address@,
                    minted_account(*old(ctx), image_hash, ipfs_cid, app_signature, timestamp),
                )
                &&& *final(ctx) == fee_paid(*old(ctx))
                &&& ev == (MemoryMinted { owner: old(ctx).user.key, image_hash, timestamp })
            },
            r matches Err(e) ==> {
                &&& mint_outcome(old(self)@, *old(ctx), address@, ipfs_cid@, timestamp) == Err::<(), ErrorCode>(e)
                &&& final(self)@ == old(self)@
                &&& *final(ctx) == *old(ctx)
            },
    {
        match validate_proof_input(ipfs_cid.as_str(), timestamp, ctx.unix_timestamp) {
            Ok(()) => {},
            Err(e) => {
                return Err(e);
            },
        }
        if self.find(&address).is_some() {
            return Err(ErrorCode::DuplicateProof);
        }
        if ctx.user.lamports < STORAGE_FEE || ctx.user.lamports - STORAGE_FEE < ctx.rent_deposit
            || ctx.dao_treasury.lamports > u64::MAX - STORAGE_FEE {
            return Err(ErrorCode::FeePaymentFailed);
        }
        ctx.user.lamports = ctx.user.lamports - STORAGE_FEE - ctx.rent_deposit;
        ctx.dao_treasury.lamports = ctx.dao_treasury.lamports + STORAGE_FEE;
        let owner = ctx.user.key;
        let acct = (address, ProofAccount {
            lamports: ctx.rent_deposit,
            data: RealityProof {
                owner,
                image_hash,
                ipfs_cid,
                app_signature,
                timestamp,
                is_verified: true,
            },
        });
        proof {
            assert(!holds_key(self.accounts@, address@));
            lemma_push(self.accounts@, acct);
        }
        self.accounts.push(acct);
        Ok(MemoryMinted { owner, image_hash, timestamp })
    }
}

/// Gives the proof at `ctx.reality_proof` to `new_owner`, when the signer
/// `ctx.user` owns it. Only the owner field changes.
pub fn transfer_memory(registry: &mut Registry, ctx: &TransferMemory, new_owner: [u8; 32]) -> (r: Result<(), ErrorCode>)
    requires
        old(registry).wf(),
    ensures
        final(registry).wf(),
        final(registry).program() == old(registry).program(),
        r == owner_check(old(registry)@, ctx.reality_proof@, ctx.user),
        r is Ok ==> final(registry)@ == old(registry)@.insert(
            ctx.reality_proof@,
            reowned(old(registry)@[ctx.reality_proof@], new_owner),
        ),
        r is Err ==> final(registry)@ == old(registry)@,
{
    let i = match registry.find(&ctx.reality_proof) {
        Some(i) => i,
        None => {
            return Err(ErrorCode::NotFound);
        },
    };
    proof {
        lemma_entry(registry.accounts@, i as int);
    }
    if !same_key(&registry.accounts[i].1.data.owner, &ctx.user) {
        return Err(ErrorCode::Unauthorized);
    }
    let (key, mut entry) = registry.accounts.remove(i);
    entry.data.owner = new_owner;
    let acct = (key, entry);
    proof {
        lemma_update(old(registry).accounts@, i as int, acct);
        assert(old(registry).accounts@.update(i as int, acct) =~= registry.accounts@.insert(i as int, acct));
    }
    registry.accounts.insert(i, acct);
    Ok(())
}

/// Deletes the proof at `ctx.reality_proof`, when the signer `ctx.user`
/// owns it, and pays its storage deposit back to the signer. The address
/// can then be minted again.
pub fn revoke_memory(registry: &mut Registry, ctx: &mut RevokeMemory) -> (r: Result<(), ErrorCode>)
    requires
        old(registry).wf(),
        owner_check(old(registry)@, old(ctx).reality_proof@, old(ctx).user.key) is Ok ==>
            old(ctx).user.lamports + old(registry)@[old(ctx).reality_proof@].lamports <= u64::MAX,
    ensures
        final(registry).wf(),
        final(registry).program() == old(registry).program(),
        r == owner_check(old(registry)@, old(ctx).reality_proof@, old(ctx).user.key),
        r is Ok ==> {
            &&& final(registry)@ == old(registry)@.remove(old(ctx).reality_proof@)
            &&& final(ctx).reality_proof == old(ctx).reality_proof
            &&& final(ctx).user.key == old(ctx).user.key
            &&& final(ctx).user.lamports == old(ctx).user.lamports + old(registry)@[old(ctx).reality_proof@].lamports
        },
        r is Err ==> final(registry)@ == old(registry)@ && *final(ctx) == *old(ctx),
{
    let i = match registry.find(&ctx.reality_proof) {
        Some(i) => i,
        None => {
            return Err(ErrorCode::NotFound);
        },
    };
    proof {
        lemma_entry(registry.accounts@, i as int);
    }
    if !same_key(&registry.accounts[i].1.data.owner, &ctx.user.key) {
        return Err(ErrorCode::Unauthorized);
    }
    proof {
        lemma_remove(registry.accounts@, i as int);
    }
    let (_, acct) = registry.accounts.remove(i);
    ctx.user.lamports = ctx.user.lamports + acct.lamports;
    Ok(())
}

} // verus!
