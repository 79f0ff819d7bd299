use vstd::prelude::*;
use crate::address::{Address, program_address, seeds_fit, seeds_view, verify_derivation, with_bump, MAX_SEEDS, MAX_SEED_LEN};
use crate::error::VaultError;
use crate::instructions::{CreateMint, LedgerCall, Programs, Proof, init_error};
use crate::vault::Vault;

verus! {

/// A token type kept by the ledger.
#[derive(Clone, Copy, Debug)]
pub struct MintRecord {
    pub address: Address,
    pub decimals: u8,
    pub mint_authority: Address,
    pub freeze_authority: Address,
    pub supply: u64,
}

/// One owner's balance of one token type.
#[derive(Clone, Copy, Debug)]
pub struct HolderRecord {
    pub address: Address,
    pub owner: Address,
    pub mint: Address,
    pub amount: u64,
    pub frozen: bool,
}

/// The ledger's contents.
pub struct LedgerState {
    pub vault: Option<(Seq<u8>, Vault)>,
    pub mints: Seq<MintRecord>,
    pub holders: Seq<HolderRecord>,
}

/// The position of the last token type at `a`, or -1.
pub open spec fn find_mint(ms: Seq<MintRecord>, a: Seq<u8>) -> int
    decreases ms.len(),
{
    if ms.len() == 0 {
        -1
    } else if ms.last().address@ == a {
        ms.len() - 1
    } else {
        find_mint(ms.drop_last(), a)
    }
}

/// The position of the last holder account at `a`, or -1.
pub open spec fn find_holder(hs: Seq<HolderRecord>, a: Seq<u8>) -> int
    decreases hs.len(),
{
    if hs.len() == 0 {
        -1
    } else if hs.last().address@ == a {
        hs.len() - 1
    } else {
        find_holder(hs.drop_last(), a)
    }
}

/// The balance of the holder account at `a`, if there is one.
pub open spec fn balance_of(s: LedgerState, a: Seq<u8>) -> Option<u64> {
    let i = find_holder(s.holders, a);
    if i < 0 {
        None
    } else {
        Some(s.holders[i].amount)
    }
}

/// Whether the holder account at `a` exists and is frozen.
pub open spec fn is_frozen(s: LedgerState, a: Seq<u8>) -> bool {
    let i = find_holder(s.holders, a);
    i >= 0 && s.holders[i].frozen
}

/// A proof authorizes `authority` when invoked by `program_id`: a signature of
/// that very address, or seeds and bump that derive it under `program_id`.
pub open spec fn authorizes(p: Proof, authority: Seq<u8>, program_id: Seq<u8>) -> bool {
    match p {
        Proof::Signature { signer } => signer@ == authority,
        Proof::Seeds { seeds, bump } => seeds_fit(seeds_view(seeds@)) && program_address(
            with_bump(seeds_view(seeds@), bump),
            program_id,
        ) == Some(authority),
    }
}

pub open spec fn set_holder(s: LedgerState, i: int, h: HolderRecord) -> LedgerState {
    LedgerState { holders: s.holders.update(i, h), ..s }
}

pub open spec fn set_mint(s: LedgerState, i: int, m: MintRecord) -> LedgerState {
    LedgerState { mints: s.mints.update(i, m), ..s }
}

/// The effect of one call on the ledger, invoked by `program_id`.
pub open spec fn apply_call(s: LedgerState, c: LedgerCall, program_id: Seq<u8>) -> Result<LedgerState, VaultError> {
    match c {
        LedgerCall::StoreVault { address, vault } => if s.vault is Some {
            Err(VaultError::AlreadyInitialized)
        } else {
            Ok(LedgerState { vault: Some((address@, vault)), ..s })
        },
        LedgerCall::CreateTokenType { mint, decimals, mint_authority, freeze_authority } => if find_mint(
            s.mints,
            mint@,
        ) >= 0 {
            Err(VaultError::AlreadyInitialized)
        } else {
            Ok(
                LedgerState {
                    mints: s.mints.push(MintRecord { address: mint, decimals, mint_authority, freeze_authority, supply: 0 }),
                    ..s
                },
            )
        },
        LedgerCall::CreateHolderAccount { account, owner, mint } => {
            let i = find_holder(s.holders, account@);
            if i < 0 {
                if find_mint(s.mints, mint@) < 0 {
                    Err(VaultError::InvalidAccount)
                } else {
                    Ok(
                        LedgerState {
                            holders: s.holders.push(
                                HolderRecord { address: account, owner, mint, amount: 0, frozen: false },
                            ),
                            ..s
                        },
                    )
                }
            } else if s.holders[i].owner@ == owner@ && s.holders[i].mint@ == mint@ {
                Ok(s)
            } else {
                Err(VaultError::InvalidAccount)
            }
        },
        LedgerCall::MintTo { mint, account, amount, authority, proof } => {
            let mi = find_mint(s.mints, mint@);
            let hi = find_holder(s.holders, account@);
            if hi < 0 {
                Err(VaultError::InvalidAccount)
            } else if s.holders[hi].frozen {
                Err(VaultError::AccountFrozen)
            } else if mi < 0 || s.holders[hi].mint@ != mint@ {
                Err(VaultError::InvalidAccount)
            } else if s.mints[mi].mint_authority@ != authority@ || !authorizes(proof, authority@, program_id) {
                Err(VaultError::InvalidAuthority)
            } else if s.mints[mi].supply + amount > u64::MAX || s.holders[hi].amount + amount > u64::MAX {
                Err(VaultError::Overflow)
            } else {
                let m = s.mints[mi];
                let h = s.holders[hi];
                Ok(
                    set_holder(
                        set_mint(s, mi, MintRecord { supply: (m.supply + amount) as u64, ..m }),
                        hi,
                        HolderRecord { amount: (h.amount + amount) as u64, ..h },
                    ),
                )
            }
        },
        LedgerCall::Transfer { source, destination, amount, authority, proof } => {
            let si = find_holder(s.holders, source@);
            let di = find_holder(s.holders, destination@);
            if si < 0 || di < 0 {
                Err(VaultError::InvalidAccount)
            } else if s.holders[si].frozen || s.holders[di].frozen {
                Err(VaultError::AccountFrozen)
            } else if s.holders[si].amount < amount {
                Err(VaultError::InsufficientBalance)
            } else if s.holders[si].mint@ != s.holders[di].mint@ {
                Err(VaultError::InvalidAccount)
            } else if s.holders[si].owner@ != authority@ || !authorizes(proof, authority@, program_id) {
                Err(VaultError::InvalidAuthority)
            } else if si == di {
                Ok(s)
            } else if s.holders[di].amount + amount > u64::MAX {
                Err(VaultError::Overflow)
            } else {
                let h = s.holders[si];
                let d = s.holders[di];
                Ok(
                    set_holder(
                        set_holder(s, si, HolderRecord { amount: (h.amount - amount) as u64, ..h }),
                        di,
                        HolderRecord { amount: (d.amount + amount) as u64, ..d },
                    ),
                )
            }
        },
        LedgerCall::SetFrozen { account, mint, frozen, authority, proof } => {
            let mi = find_mint(s.mints, mint@);
            let hi = find_holder(s.holders, account@);
            if mi < 0 || hi < 0 || s.holders[hi].mint@ != mint@ {
                Err(VaultError::InvalidAccount)
            } else if s.mints[mi].freeze_authority@ != authority@ || !authorizes(proof, authority@, program_id) {
                Err(VaultError::InvalidAuthority)
            } else {
                let h = s.holders[hi];
                Ok(set_holder(s, hi, HolderRecord { frozen, ..h }))
            }
        },
    }
}

/// The effect of a whole plan: every call in order, or the first failure.
pub open spec fn run_calls(s: LedgerState, calls: Seq<LedgerCall>, program_id: Seq<u8>) -> Result<LedgerState, VaultError>
    decreases calls.len(),
{
    if calls.len() == 0 {
        Ok(s)
    } else {
        match run_calls(s, calls.drop_last(), program_id) {
            Err(e) => Err(e),
            Ok(t) => apply_call(t, calls.last(), program_id),
        }
    }
}

/// An in-memory token ledger that executes plans atomically.
pub struct MemoryLedger {
    pub vault: Option<(Address, Vault)>,
    pub mints: Vec<MintRecord>,
    pub holders: Vec<HolderRecord>,
}

impl MemoryLedger {
    pub open spec fn state(&self) -> LedgerState {
        LedgerState {
            vault: match self.vault {
                Some((a, v)) => Some((a@, v)),
                None => None,
            },
            mints: self.mints@,
            holders: self.holders@,
        }
    }

    /// An empty ledger.
    pub fn new() -> (r: MemoryLedger)
        ensures
            r.state().vault is None,
            r.state().mints.len() == 0,
            r.state().holders.len() == 0,
    {
        MemoryLedger { vault: None, mints: Vec::new(), holders: Vec::new() }
    }
}

fn mint_index(ms: &Vec<MintRecord>, a: &Address) -> (r: Option<usize>)
    ensures
        r matches Some(i) ==> i as int == find_mint(ms@, a@) && i < ms@.len(),
        r is None ==> find_mint(ms@, a@) == -1,
{
    let mut i: usize = ms.len();
    assert(ms@.subrange(0, i as int) =~= ms@);
    while i > 0
        invariant
            i <= ms@.len(),
            find_mint(ms@, a@) == find_mint(ms@.subrange(0, i as int), a@),
        decreases i,
    {
        assert(ms@.subrange(0, i as int).drop_last() =~= ms@.subrange(0, i - 1));
        if ms[i - 1].address.same_as(a) {
            return Some(i - 1);
        }
        i = i - 1;
    }
    None
}

fn holder_index(hs: &Vec<HolderRecord>, a: &Address) -> (r: Option<usize>)
    ensures
        r matches Some(i) ==> i as int == find_holder(hs@, a@) && i < hs@.len(),
        r is None ==> find_holder(hs@, a@) == -1,
{
    let mut i: usize = hs.len();
    assert(hs@.subrange(0, i as int) =~= hs@);
    while i > 0
        invariant
            i <= hs@.len(),
            find_holder(hs@, a@) == find_holder(hs@.subrange(0, i as int), a@),
        decreases i,
    {
        assert(hs@.subrange(0, i as int).drop_last() =~= hs@.subrange(0, i - 1));
        if hs[i - 1].address.same_as(a) {
            return Some(i - 1);
        }
        i = i - 1;
    }
    None
}

fn seeds_within_limits(seeds: &Vec<Vec<u8>>) -> (r: bool)
    ensures
        r == seeds_fit(seeds_view(seeds@)),
{
    if seeds.len() >= MAX_SEEDS {
        return false;
    }
    let mut i: usize = 0;
    while i < seeds.len()
        invariant
            0 <= i <= seeds@.len(),
            forall|j: int| 0 <= j < i ==> #[trigger] seeds_view(seeds@)[j].len() <= MAX_SEED_LEN,
        decreases seeds@.len() - i,
    {
        if seeds[i].len() > MAX_SEED_LEN {
            assert(seeds_view(seeds@)[i as int].len() > MAX_SEED_LEN);
            return false;
        }
        i = i + 1;
    }
    true
}

fn proof_authorizes(p: &Proof, authority: &Address, program_id: &Address) -> (r: bool)
    ensures
        r == authorizes(*p, authority@, program_id@),
{
    match p {
        Proof::Signature { signer } => signer.same_as(authority),
        Proof::Seeds { seeds, bump } => seeds_within_limits(seeds) && verify_derivation(seeds, *bump, program_id, authority),
    }
}

/// Once a prefix of a plan fails, the whole plan fails with that error.
proof fn lemma_run_fails_on(s: LedgerState, calls: Seq<LedgerCall>, program_id: Seq<u8>, k: int, n: int, e: VaultError)
    requires
        0 <= k <= n <= calls.len(),
        run_calls(s, calls.subrange(0, k), program_id) == Err::<LedgerState, VaultError>(e),
    ensures
        run_calls(s, calls.subrange(0, n), program_id) == Err::<LedgerState, VaultError>(e),
    decreases n - k,
{
    if k < n {
        assert(calls.subrange(0, k + 1).drop_last() =~= calls.subrange(0, k));
        lemma_run_fails_on(s, calls, program_id, k + 1, n, e);
    }
}

impl MemoryLedger {
    /// The balance of the holder account at `account`, if there is one.
    pub fn balance(&self, account: &Address) -> (r: Option<u64>)
        ensures
            r == balance_of(self.state(), account@),
    {
        match holder_index(&self.holders, account) {
            Some(i) => Some(self.holders[i].amount),
            None => None,
        }
    }

    /// Whether the holder account at `account` exists and is frozen.
    pub fn frozen(&self, account: &Address) -> (r: bool)
        ensures
            r == is_frozen(self.state(), account@),
    {
        match holder_index(&self.holders, account) {
            Some(i) => self.holders[i].frozen,
            None => false,
        }
    }

    /// The stored vault record, if Initialize has run.
    pub fn stored_vault(&self) -> (r: Option<Vault>)
        ensures
            r is Some <==> self.state().vault is Some,
            r matches Some(v) ==> self.state().vault.unwrap().1 == v,
    {
        match self.vault {
            Some((_, v)) => Some(v),
            None => None,
        }
    }

    fn copy(&self) -> (r: MemoryLedger)
        ensures
            r.state() == self.state(),
    {
        let mut mints: Vec<MintRecord> = Vec::new();
        let mut i: usize = 0;
        while i < self.mints.len()
            invariant
                0 <= i <= self.mints@.len(),
                mints@ == self.mints@.subrange(0, i as int),
            decreases self.mints@.len() - i,
        {
            mints.push(self.mints[i]);
            assert(self.mints@.subrange(0, i + 1) =~= self.mints@.subrange(0, i as int).push(self.mints@[i as int]));
            i = i + 1;
        }
        let mut holders: Vec<HolderRecord> = Vec::new();
        let mut j: usize = 0;
        while j < self.holders.len()
            invariant
                0 <= j <= self.holders@.len(),
                holders@ == self.holders@.subrange(0, j as int),
            decreases self.holders@.len() - j,
        {
            holders.push(self.holders[j]);
            assert(self.holders@.subrange(0, j + 1) =~= self.holders@.subrange(0, j as int).push(self.holders@[j as int]));
            j = j + 1;
        }
        assert(mints@ =~= self.mints@);
        assert(holders@ =~= self.holders@);
        MemoryLedger { vault: self.vault, mints, holders }
    }

    /// Applies one call, leaving the ledger as it was when the call fails.
    pub fn apply(&mut self, c: &LedgerCall, program_id: &Address) -> (r: Result<(), VaultError>)
        ensures
            r is Ok ==> apply_call(old(self).state(), *c, program_id@) == Ok::<LedgerState, VaultError>(final(self).state()),
            r matches Err(e) ==> apply_call(old(self).state(), *c, program_id@) == Err::<LedgerState, VaultError>(e)
                && final(self).state() == old(self).state(),
    {
        match c {
            LedgerCall::StoreVault { address, vault } => {
                if self.vault.is_some() {
                    return Err(VaultError::AlreadyInitialized);
                }
                self.vault = Some((*address, *vault));
                Ok(())
            },
            LedgerCall::CreateTokenType { mint, decimals, mint_authority, freeze_authority } => {
                if mint_index(&self.mints, mint).is_some() {
                    return Err(VaultError::AlreadyInitialized);
                }
                self.mints.push(
                    MintRecord {
                        address: *mint,
                        decimals: *decimals,
                        mint_authority: *mint_authority,
                        freeze_authority: *freeze_authority,
                        supply: 0,
                    },
                );
                Ok(())
            },
            LedgerCall::CreateHolderAccount { account, owner, mint } => {
                match holder_index(&self.holders, account) {
                    None => {
                        if mint_index(&self.mints, mint).is_none() {
                            return Err(VaultError::InvalidAccount);
                        }
                        self.holders.push(
                            HolderRecord { address: *account, owner: *owner, mint: *mint, amount: 0, frozen: false },
                        );
                        Ok(())
                    },
                    Some(i) => {
                        if self.holders[i].owner.same_as(owner) && self.holders[i].mint.same_as(mint) {
                            Ok(())
                        } else {
                            Err(VaultError::InvalidAccount)
                        }
                    },
                }
            },
            LedgerCall::MintTo { mint, account, amount, authority, proof } => {
                let hi = match holder_index(&self.holders, account) {
                    None => return Err(VaultError::InvalidAccount),
                    Some(hi) => hi,
                };
                let h = self.holders[hi];
                if h.frozen {
                    return Err(VaultError::AccountFrozen);
                }
                let mi = match mint_index(&self.mints, mint) {
                    None => return Err(VaultError::InvalidAccount),
                    Some(mi) => mi,
                };
                let m = self.mints[mi];
                if !h.mint.same_as(mint) {
                    return Err(VaultError::InvalidAccount);
                }
                if !m.mint_authority.same_as(authority) || !proof_authorizes(proof, authority, program_id) {
                    return Err(VaultError::InvalidAuthority);
                }
                if m.supply > u64::MAX - *amount || h.amount > u64::MAX - *amount {
                    return Err(VaultError::Overflow);
                }
                self.mints.set(mi, MintRecord { supply: m.supply + *amount, ..m });
                self.holders.set(hi, HolderRecord { amount: h.amount + *amount, ..h });
                Ok(())
            },
            LedgerCall::Transfer { source, destination, amount, authority, proof } => {
                let si = holder_index(&self.holders, source);
                let di = holder_index(&self.holders, destination);
                if si.is_none() || di.is_none() {
                    return Err(VaultError::InvalidAccount);
                }
                let si = si.unwrap();
                let di = di.unwrap();
                let h = self.holders[si];
                let d = self.holders[di];
                if h.frozen || d.frozen {
                    return Err(VaultError::AccountFrozen);
                }
                if h.amount < *amount {
                    return Err(VaultError::InsufficientBalance);
                }
                if !h.mint.same_as(&d.mint) {
                    return Err(VaultError::InvalidAccount);
                }
                if !h.owner.same_as(authority) || !proof_authorizes(proof, authority, program_id) {
                    return Err(VaultError::InvalidAuthority);
                }
                if si == di {
                    return Ok(());
                }
                if d.amount > u64::MAX - *amount {
                    return Err(VaultError::Overflow);
                }
                self.holders.set(si, HolderRecord { amount: h.amount - *amount, ..h });
                self.holders.set(di, HolderRecord { amount: d.amount + *amount, ..d });
                Ok(())
            },
            LedgerCall::SetFrozen { account, mint, frozen, authority, proof } => {
                let mi = mint_index(&self.mints, mint);
                let hi = holder_index(&self.holders, account);
                if mi.is_none() || hi.is_none() {
                    return Err(VaultError::InvalidAccount);
                }
                let mi = mi.unwrap();
                let hi = hi.unwrap();
                let m = self.mints[mi];
                let h = self.holders[hi];
                if !h.mint.same_as(mint) {
                    return Err(VaultError::InvalidAccount);
                }
                if !m.freeze_authority.same_as(authority) || !proof_authorizes(proof, authority, program_id) {
                    return Err(VaultError::InvalidAuthority);
                }
                self.holders.set(hi, HolderRecord { frozen: *frozen, ..h });
                Ok(())
            },
        }
    }

    /// Executes a plan as one unit: every call in order, or, at the first
    /// failure, none of them.
    pub fn execute(&mut self, calls: &Vec<LedgerCall>, program_id: &Address) -> (r: Result<(), VaultError>)
        ensures
            match run_calls(old(self).state(), calls@, program_id@) {
                Ok(t) => r is Ok && final(self).state() == t,
                Err(e) => r == Err::<(), VaultError>(e) && final(self).state() == old(self).state(),
            },
    {
        let mut work = self.copy();
        let ghost start = self.state();
        let mut i: usize = 0;
        assert(calls@.subrange(0, 0) =~= Seq::<LedgerCall>::empty());
        while i < calls.len()
            invariant
                0 <= i <= calls@.len(),
                self.state() == start,
                run_calls(start, calls@.subrange(0, i as int), program_id@) == Ok::<LedgerState, VaultError>(work.state()),
            decreases calls@.len() - i,
        {
            assert(calls@.subrange(0, i + 1).drop_last() =~= calls@.subrange(0, i as int));
            match work.apply(&calls[i], program_id) {
                Ok(()) => {},
                Err(e) => {
                    proof {
                        lemma_run_fails_on(start, calls@, program_id@, i + 1, calls@.len() as int, e);
                        assert(calls@.subrange(0, calls@.len() as int) =~= calls@);
                    }
                    return Err(e);
                },
            }
            i = i + 1;
        }
        assert(calls@.subrange(0, calls@.len() as int) =~= calls@);
        *self = work;
        Ok(())
    }
}

/// Replacing a holder account by one at the same address leaves every
/// lookup where it was.
proof fn lemma_find_holder_update(hs: Seq<HolderRecord>, i: int, h: HolderRecord, a: Seq<u8>)
    requires
        0 <= i < hs.len(),
        h.address@ == hs[i].address@,
    ensures
        find_holder(hs.update(i, h), a) == find_holder(hs, a),
    decreases hs.len(),
{
    let u = hs.update(i, h);
    if hs.len() > 0 {
        if i < hs.len() - 1 {
            assert(u.drop_last() =~= hs.drop_last().update(i, h));
            lemma_find_holder_update(hs.drop_last(), i, h, a);
        } else {
            assert(u.drop_last() =~= hs.drop_last());
        }
    }
}

proof fn lemma_find_holder_range(hs: Seq<HolderRecord>, a: Seq<u8>)
    ensures
        -1 <= find_holder(hs, a) < hs.len(),
        find_holder(hs, a) >= 0 ==> hs[find_holder(hs, a)].address@ == a,
    decreases hs.len(),
{
    if hs.len() > 0 && hs.last().address@ != a {
        lemma_find_holder_range(hs.drop_last(), a);
    }
}

/// A frozen holder account refuses every mint into it and every transfer
/// out of or into it (between existing accounts) with `AccountFrozen`.
pub proof fn lemma_frozen_account_refuses(s: LedgerState, c: LedgerCall, program_id: Seq<u8>, account: Seq<u8>)
    requires
        is_frozen(s, account),
        match c {
            LedgerCall::MintTo { account: target, .. } => target@ == account,
            LedgerCall::Transfer { source, destination, .. } => (source@ == account || destination@ == account)
                && find_holder(s.holders, source@) >= 0 && find_holder(s.holders, destination@) >= 0,
            _ => false,
        },
    ensures
        apply_call(s, c, program_id) == Err::<LedgerState, VaultError>(VaultError::AccountFrozen),
{
}

/// Thawing a holder account makes it unfrozen again and keeps every balance.
pub proof fn lemma_thaw_restores(s: LedgerState, c: LedgerCall, program_id: Seq<u8>, t: LedgerState, other: Seq<u8>)
    requires
        c matches LedgerCall::SetFrozen { frozen, .. } && !frozen,
        apply_call(s, c, program_id) == Ok::<LedgerState, VaultError>(t),
    ensures
        c matches LedgerCall::SetFrozen { account, .. } && !is_frozen(t, account@),
        balance_of(t, other) == balance_of(s, other),
{
    if let LedgerCall::SetFrozen { account, .. } = c {
        let hi = find_holder(s.holders, account@);
        lemma_find_holder_range(s.holders, account@);
        let h = s.holders[hi];
        lemma_find_holder_update(s.holders, hi, HolderRecord { frozen: false, ..h }, account@);
        lemma_find_holder_update(s.holders, hi, HolderRecord { frozen: false, ..h }, other);
        lemma_find_holder_range(s.holders, other);
    }
}

/// A successful mint raises the target's balance by exactly the amount.
pub proof fn lemma_mint_credits(s: LedgerState, c: LedgerCall, program_id: Seq<u8>, t: LedgerState)
    requires
        c is MintTo,
        apply_call(s, c, program_id) == Ok::<LedgerState, VaultError>(t),
    ensures
        c matches LedgerCall::MintTo { account, amount, .. } && balance_of(s, account@) is Some
            && balance_of(t, account@) == Some((balance_of(s, account@).unwrap() + amount) as u64)
            && balance_of(s, account@).unwrap() + amount <= u64::MAX,
{
    if let LedgerCall::MintTo { mint, account, amount, .. } = c {
        let hi = find_holder(s.holders, account@);
        let mi = find_mint(s.mints, mint@);
        lemma_find_holder_range(s.holders, account@);
        let h = s.holders[hi];
        let m = s.mints[mi];
        let mid = set_mint(s, mi, MintRecord { supply: (m.supply + amount) as u64, ..m });
        assert(mid.holders == s.holders);
        lemma_find_holder_update(s.holders, hi, HolderRecord { amount: (h.amount + amount) as u64, ..h }, account@);
    }
}

/// A successful transfer between two distinct holder accounts moves exactly
/// the amount from the source to the destination.
pub proof fn lemma_transfer_moves(s: LedgerState, c: LedgerCall, program_id: Seq<u8>, t: LedgerState)
    requires
        c matches LedgerCall::Transfer { source, destination, .. } && source@ != destination@,
        apply_call(s, c, program_id) == Ok::<LedgerState, VaultError>(t),
    ensures
        c matches LedgerCall::Transfer { source, destination, amount, .. } && balance_of(s, source@) is Some
            && balance_of(s, destination@) is Some
            && balance_of(t, source@) == Some((balance_of(s, source@).unwrap() - amount) as u64)
            && balance_of(t, destination@) == Some((balance_of(s, destination@).unwrap() + amount) as u64)
            && amount <= balance_of(s, source@).unwrap(),
{
    if let LedgerCall::Transfer { source, destination, amount, .. } = c {
        let si = find_holder(s.holders, source@);
        let di = find_holder(s.holders, destination@);
        lemma_find_holder_range(s.holders, source@);
        lemma_find_holder_range(s.holders, destination@);
        let h = s.holders[si];
        let d = s.holders[di];
        let hs1 = s.holders.update(si, HolderRecord { amount: (h.amount - amount) as u64, ..h });
        lemma_find_holder_update(s.holders, si, HolderRecord { amount: (h.amount - amount) as u64, ..h }, source@);
        lemma_find_holder_update(s.holders, si, HolderRecord { amount: (h.amount - amount) as u64, ..h }, destination@);
        lemma_find_holder_update(hs1, di, HolderRecord { amount: (d.amount + amount) as u64, ..d }, source@);
        lemma_find_holder_update(hs1, di, HolderRecord { amount: (d.amount + amount) as u64, ..d }, destination@);
    }
}

proof fn lemma_vault_kept(s: LedgerState, c: LedgerCall, program_id: Seq<u8>)
    requires
        s.vault is Some,
        apply_call(s, c, program_id) is Ok,
    ensures
        apply_call(s, c, program_id).unwrap().vault is Some,
{
}

/// Once a plan that holds a vault write has run, the ledger holds a vault; so
/// a second Initialize against it is refused with `AlreadyInitialized`.
pub proof fn lemma_second_initialize_refused(
    s: LedgerState,
    calls: Seq<LedgerCall>,
    program_id: Seq<u8>,
    t: LedgerState,
    i: int,
    ctx: CreateMint,
    p: Programs,
)
    requires
        0 <= i < calls.len(),
        calls[i] is StoreVault,
        run_calls(s, calls, program_id) == Ok::<LedgerState, VaultError>(t),
    ensures
        t.vault is Some,
        init_error(ctx, t.vault is Some, p) == Some(VaultError::AlreadyInitialized),
    decreases calls.len(),
{
    let before = run_calls(s, calls.drop_last(), program_id);
    if i < calls.len() - 1 {
        lemma_second_initialize_refused(s, calls.drop_last(), program_id, before.unwrap(), i, ctx, p);
        lemma_vault_kept(before.unwrap(), calls.last(), program_id);
    }
}

} // verus!
