use vstd::prelude::*;
use crate::address::{
    Address, derive_address, lemma_derive_deterministic, derived, program_address, seeds_fit, seeds_view, verify_derivation, with_bump,
};
use crate::error::VaultError;
use crate::vault::Vault;

verus! {

/// The label of the vault's seed path: the ASCII bytes of `vault`.
pub open spec fn vault_label() -> Seq<u8> {
    seq![118u8, 97u8, 117u8, 108u8, 116u8]
}

/// The label of the token type's seed path: the ASCII bytes of
/// `spl-token-mint`.
pub open spec fn mint_label() -> Seq<u8> {
    seq![115u8, 112u8, 108u8, 45u8, 116u8, 111u8, 107u8, 101u8, 110u8, 45u8, 109u8, 105u8, 110u8, 116u8]
}

pub open spec fn vault_seed_path() -> Seq<Seq<u8>> {
    seq![vault_label()]
}

pub open spec fn mint_seed_path() -> Seq<Seq<u8>> {
    seq![mint_label()]
}

/// The seed path of the holder account of `owner` for `mint`.
pub open spec fn holder_seed_path(owner: Seq<u8>, token_program: Seq<u8>, mint: Seq<u8>) -> Seq<Seq<u8>> {
    seq![owner, token_program, mint]
}

/// The seed path of the vault.
pub fn vault_seeds() -> (r: Vec<Vec<u8>>)
    ensures
        seeds_view(r@) == vault_seed_path(),
        seeds_fit(seeds_view(r@)),
{
    let label: Vec<u8> = vec![118u8, 97u8, 117u8, 108u8, 116u8];
    assert(label@ =~= vault_label());
    let r: Vec<Vec<u8>> = vec![label];
    assert(seeds_view(r@) =~= vault_seed_path());
    r
}

/// The seed path of the token type.
pub fn mint_seeds() -> (r: Vec<Vec<u8>>)
    ensures
        seeds_view(r@) == mint_seed_path(),
        seeds_fit(seeds_view(r@)),
{
    let label: Vec<u8> = vec![115u8, 112u8, 108u8, 45u8, 116u8, 111u8, 107u8, 101u8, 110u8, 45u8, 109u8, 105u8, 110u8, 116u8];
    assert(label@ =~= mint_label());
    let r: Vec<Vec<u8>> = vec![label];
    assert(seeds_view(r@) =~= mint_seed_path());
    r
}

/// The programs an operation runs against: this controller, the token
/// ledger, and the program that derives holder-account addresses.
#[derive(Clone, Copy, Debug)]
pub struct Programs {
    pub program_id: Address,
    pub token_program: Address,
    pub associated_token_program: Address,
}

/// The derived address of the holder account of `owner` for `mint`.
pub open spec fn holder_address(owner: Seq<u8>, mint: Seq<u8>, p: Programs) -> Option<Seq<u8>> {
    match derived(holder_seed_path(owner, p.token_program@, mint), p.associated_token_program@) {
        Some((a, _)) => Some(a),
        None => None,
    }
}

/// Evidence that authorizes a privileged ledger call: a signature of a keyed
/// identity, or the seeds and bump that derive a keyless one.
#[derive(Debug)]
pub enum Proof {
    Signature { signer: Address },
    Seeds { seeds: Vec<Vec<u8>>, bump: u8 },
}

/// One call into the token ledger, or the single write of the vault record.
#[derive(Debug)]
pub enum LedgerCall {
    StoreVault { address: Address, vault: Vault },
    CreateTokenType { mint: Address, decimals: u8, mint_authority: Address, freeze_authority: Address },
    CreateHolderAccount { account: Address, owner: Address, mint: Address },
    MintTo { mint: Address, account: Address, amount: u64, authority: Address, proof: Proof },
    Transfer { source: Address, destination: Address, amount: u64, authority: Address, proof: Proof },
    SetFrozen { account: Address, mint: Address, frozen: bool, authority: Address, proof: Proof },
}

/// The proof by which the vault address authorizes a call.
pub open spec fn is_vault_proof(p: Proof, v: Vault) -> bool {
    p matches Proof::Seeds { seeds, bump } && seeds_view(seeds@) == vault_seed_path() && bump == v.bump
}

fn vault_proof(v: &Vault) -> (r: Proof)
    ensures
        is_vault_proof(r, *v),
{
    Proof::Seeds { seeds: vault_seeds(), bump: v.bump }
}

/// The accounts of Initialize.
#[derive(Clone, Copy, Debug)]
pub struct CreateMint {
    pub spl_token_mint: Address,
    pub payer: Address,
    pub vault: Address,
}

/// The accounts of Mint.
#[derive(Clone, Copy, Debug)]
pub struct TransferMint {
    pub spl_token_mint: Address,
    pub vault: Address,
    pub payer_mint_ata: Address,
    pub payer: Address,
}

/// The accounts of Transfer.
#[derive(Clone, Copy, Debug)]
pub struct TransferTokenToAnother {
    pub spl_token_mint: Address,
    pub vault: Address,
    pub payer_mint_ata: Address,
    pub payer: Address,
    pub another_mint_ata: Address,
    pub another_account: Address,
}

/// The accounts of SetFrozen(true).
#[derive(Clone, Copy, Debug)]
pub struct FreezeTokenAccount {
    pub spl_token_mint: Address,
    pub vault: Address,
    pub payer: Address,
    pub payer_mint_ata: Address,
}

/// The accounts of SetFrozen(false).
#[derive(Clone, Copy, Debug)]
pub struct UnfreezeTokenAccount {
    pub spl_token_mint: Address,
    pub vault: Address,
    pub payer: Address,
    pub payer_mint_ata: Address,
}

/// The first failure of the validation that every operation after Initialize
/// runs, in order: the signer is the authority, the vault and token-type
/// addresses re-derive from the stored bumps, and the signer's holder account
/// is the derived one.
pub open spec fn access_error(
    payer: Seq<u8>,
    vault_addr: Seq<u8>,
    mint_addr: Seq<u8>,
    holder: Seq<u8>,
    v: Vault,
    p: Programs,
) -> Option<VaultError> {
    if payer != v.authority@ {
        Some(VaultError::Unauthorized)
    } else if program_address(with_bump(vault_seed_path(), v.bump), p.program_id@) != Some(vault_addr) {
        Some(VaultError::DerivationMismatch)
    } else if program_address(with_bump(mint_seed_path(), v.spl_token_mint_bump), p.program_id@) != Some(
        mint_addr,
    ) {
        Some(VaultError::DerivationMismatch)
    } else {
        holder_error(payer, mint_addr, holder, p)
    }
}

/// Why `holder` is not the holder account of `owner` for `mint`, if it is not.
pub open spec fn holder_error(owner: Seq<u8>, mint: Seq<u8>, holder: Seq<u8>, p: Programs) -> Option<VaultError> {
    match holder_address(owner, mint, p) {
        None => Some(VaultError::NoValidBumpFound),
        Some(a) => if a == holder {
            None
        } else {
            Some(VaultError::DerivationMismatch)
        },
    }
}

fn check_holder(owner: &Address, mint: &Address, holder: &Address, p: &Programs) -> (r: Result<(), VaultError>)
    ensures
        r is Ok <==> holder_error(owner@, mint@, holder@, *p) is None,
        r matches Err(e) ==> holder_error(owner@, mint@, holder@, *p) == Some(e),
{
    let label_seeds: Vec<Vec<u8>> = vec![owner.to_vec(), p.token_program.to_vec(), mint.to_vec()];
    assert(seeds_view(label_seeds@) =~= holder_seed_path(owner@, p.token_program@, mint@));
    match derive_address(&label_seeds, &p.associated_token_program) {
        None => Err(VaultError::NoValidBumpFound),
        Some((a, _)) => if a.same_as(holder) {
            Ok(())
        } else {
            Err(VaultError::DerivationMismatch)
        },
    }
}

fn check_access(
    payer: &Address,
    vault_addr: &Address,
    mint_addr: &Address,
    holder: &Address,
    v: &Vault,
    p: &Programs,
) -> (r: Result<(), VaultError>)
    ensures
        r is Ok <==> access_error(payer@, vault_addr@, mint_addr@, holder@, *v, *p) is None,
        r matches Err(e) ==> access_error(payer@, vault_addr@, mint_addr@, holder@, *v, *p) == Some(e),
{
    if !payer.same_as(&v.authority) {
        return Err(VaultError::Unauthorized);
    }
    if !verify_derivation(&vault_seeds(), v.bump, &p.program_id, vault_addr) {
        return Err(VaultError::DerivationMismatch);
    }
    if !verify_derivation(&mint_seeds(), v.spl_token_mint_bump, &p.program_id, mint_addr) {
        return Err(VaultError::DerivationMismatch);
    }
    check_holder(payer, mint_addr, holder, p)
}

/// Why Initialize refuses, if it does: a vault already exists, or a supplied
/// address is not the one derived for its seed path.
pub open spec fn init_error(ctx: CreateMint, existing: bool, p: Programs) -> Option<VaultError> {
    if existing {
        Some(VaultError::AlreadyInitialized)
    } else {
        match derived(vault_seed_path(), p.program_id@) {
            None => Some(VaultError::NoValidBumpFound),
            Some((a, _)) => if a != ctx.vault@ {
                Some(VaultError::DerivationMismatch)
            } else {
                match derived(mint_seed_path(), p.program_id@) {
                    None => Some(VaultError::NoValidBumpFound),
                    Some((m, _)) => if m != ctx.spl_token_mint@ {
                        Some(VaultError::DerivationMismatch)
                    } else {
                        None
                    },
                }
            },
        }
    }
}

/// The vault's stored bumps re-derive the vault's own address and its
/// recorded token-type address.
pub open spec fn vault_rederives(v: Vault, vault_addr: Seq<u8>, program_id: Seq<u8>) -> bool {
    &&& program_address(with_bump(vault_seed_path(), v.bump), program_id) == Some(vault_addr)
    &&& program_address(with_bump(mint_seed_path(), v.spl_token_mint_bump), program_id) == Some(
        v.spl_token_mint@,
    )
}

/// Initialize: derives the vault and token-type addresses, and plans the
/// creation of the token type (no decimals, the vault as mint and freeze
/// authority) and the single write of the vault record.
pub fn create_mint(ctx: &CreateMint, p: &Programs, existing: &Option<Vault>) -> (r: Result<Vec<LedgerCall>, VaultError>)
    ensures
        r is Err <==> init_error(*ctx, existing is Some, *p) is Some,
        r matches Err(e) ==> init_error(*ctx, existing is Some, *p) == Some(e),
        r matches Ok(calls) ==> {
            &&& calls@.len() == 2
            &&& calls@[0] matches LedgerCall::CreateTokenType { mint, decimals, mint_authority, freeze_authority }
                && mint@ == ctx.spl_token_mint@ && decimals == 0 && mint_authority@ == ctx.vault@
                && freeze_authority@ == ctx.vault@
            &&& calls@[1] matches LedgerCall::StoreVault { address, vault } && address@ == ctx.vault@
                && vault.authority@ == ctx.payer@ && vault.spl_token_mint@ == ctx.spl_token_mint@
                && derived(vault_seed_path(), p.program_id@) == Some((ctx.vault@, vault.bump))
                && derived(mint_seed_path(), p.program_id@) == Some(
                (ctx.spl_token_mint@, vault.spl_token_mint_bump),
            )
        },
{
    if existing.is_some() {
        return Err(VaultError::AlreadyInitialized);
    }
    let (vault_addr, bump) = match derive_address(&vault_seeds(), &p.program_id) {
        None => return Err(VaultError::NoValidBumpFound),
        Some(found) => found,
    };
    if !vault_addr.same_as(&ctx.vault) {
        return Err(VaultError::DerivationMismatch);
    }
    let (mint_addr, mint_bump) = match derive_address(&mint_seeds(), &p.program_id) {
        None => return Err(VaultError::NoValidBumpFound),
        Some(found) => found,
    };
    if !mint_addr.same_as(&ctx.spl_token_mint) {
        return Err(VaultError::DerivationMismatch);
    }
    let vault = Vault { bump, spl_token_mint_bump: mint_bump, authority: ctx.payer, spl_token_mint: ctx.spl_token_mint };
    let mut calls: Vec<LedgerCall> = Vec::new();
    calls.push(
        LedgerCall::CreateTokenType {
            mint: ctx.spl_token_mint,
            decimals: 0,
            mint_authority: ctx.vault,
            freeze_authority: ctx.vault,
        },
    );
    calls.push(LedgerCall::StoreVault { address: ctx.vault, vault });
    Ok(calls)
}

/// Mint: after validation, plans the creation of the signer's holder account
/// if it is absent and the minting of `amount` into it, authorized by the
/// vault's seeds.
pub fn transfer_mint(ctx: &TransferMint, v: &Vault, p: &Programs, amount: u64) -> (r: Result<Vec<LedgerCall>, VaultError>)
    ensures
        r is Err <==> access_error(ctx.payer@, ctx.vault@, ctx.spl_token_mint@, ctx.payer_mint_ata@, *v, *p) is Some,
        r matches Err(e) ==> access_error(ctx.payer@, ctx.vault@, ctx.spl_token_mint@, ctx.payer_mint_ata@, *v, *p)
            == Some(e),
        r matches Ok(calls) ==> {
            &&& calls@.len() == 2
            &&& calls@[0] matches LedgerCall::CreateHolderAccount { account, owner, mint }
                && account@ == ctx.payer_mint_ata@ && owner@ == ctx.payer@ && mint@ == ctx.spl_token_mint@
            &&& calls@[1] matches LedgerCall::MintTo { mint, account, amount: n, authority, proof }
                && mint@ == ctx.spl_token_mint@ && account@ == ctx.payer_mint_ata@ && n == amount
                && authority@ == ctx.vault@ && is_vault_proof(proof, *v)
        },
{
    check_access(&ctx.payer, &ctx.vault, &ctx.spl_token_mint, &ctx.payer_mint_ata, v, p)?;
    let mut calls: Vec<LedgerCall> = Vec::new();
    calls.push(
        LedgerCall::CreateHolderAccount { account: ctx.payer_mint_ata, owner: ctx.payer, mint: ctx.spl_token_mint },
    );
    calls.push(
        LedgerCall::MintTo {
            mint: ctx.spl_token_mint,
            account: ctx.payer_mint_ata,
            amount,
            authority: ctx.vault,
            proof: vault_proof(v),
        },
    );
    Ok(calls)
}

/// Why Transfer refuses, if it does: the shared validation, then the
/// recipient's holder account derivation.
pub open spec fn transfer_error(ctx: TransferTokenToAnother, v: Vault, p: Programs) -> Option<VaultError> {
    match access_error(ctx.payer@, ctx.vault@, ctx.spl_token_mint@, ctx.payer_mint_ata@, v, p) {
        Some(e) => Some(e),
        None => holder_error(ctx.another_account@, ctx.spl_token_mint@, ctx.another_mint_ata@, p),
    }
}

/// Transfer: after validation, plans the creation of the recipient's holder
/// account if it is absent and the move of `amount` from the signer's holder
/// account, authorized by the signer's signature. The recipient gives no
/// consent.
pub fn transfer_token_to_another(ctx: &TransferTokenToAnother, v: &Vault, p: &Programs, amount: u64) -> (r: Result<
    Vec<LedgerCall>,
    VaultError,
>)
    ensures
        r is Err <==> transfer_error(*ctx, *v, *p) is Some,
        r matches Err(e) ==> transfer_error(*ctx, *v, *p) == Some(e),
        r matches Ok(calls) ==> {
            &&& calls@.len() == 2
            &&& calls@[0] matches LedgerCall::CreateHolderAccount { account, owner, mint }
                && account@ == ctx.another_mint_ata@ && owner@ == ctx.another_account@
                && mint@ == ctx.spl_token_mint@
            &&& calls@[1] matches LedgerCall::Transfer { source, destination, amount: n, authority, proof }
                && source@ == ctx.payer_mint_ata@ && destination@ == ctx.another_mint_ata@ && n == amount
                && authority@ == ctx.payer@ && (proof matches Proof::Signature { signer }
                && signer@ == ctx.payer@)
        },
{
    check_access(&ctx.payer, &ctx.vault, &ctx.spl_token_mint, &ctx.payer_mint_ata, v, p)?;
    check_holder(&ctx.another_account, &ctx.spl_token_mint, &ctx.another_mint_ata, p)?;
    let mut calls: Vec<LedgerCall> = Vec::new();
    calls.push(
        LedgerCall::CreateHolderAccount {
            account: ctx.another_mint_ata,
            owner: ctx.another_account,
            mint: ctx.spl_token_mint,
        },
    );
    calls.push(
        LedgerCall::Transfer {
            source: ctx.payer_mint_ata,
            destination: ctx.another_mint_ata,
            amount,
            authority: ctx.payer,
            proof: Proof::Signature { signer: ctx.payer },
        },
    );
    Ok(calls)
}

/// The plan of SetFrozen once validation has passed.
pub open spec fn is_set_frozen_plan(calls: Seq<LedgerCall>, holder: Seq<u8>, mint_addr: Seq<u8>, vault_addr: Seq<u8>, v: Vault, frozen: bool) -> bool {
    &&& calls.len() == 1
    &&& calls[0] matches LedgerCall::SetFrozen { account, mint, frozen: f, authority, proof }
        && account@ == holder && mint@ == mint_addr && f == frozen && authority@ == vault_addr
        && is_vault_proof(proof, v)
}

fn set_frozen(
    payer: &Address,
    vault_addr: &Address,
    mint_addr: &Address,
    holder: &Address,
    v: &Vault,
    p: &Programs,
    frozen: bool,
) -> (r: Result<Vec<LedgerCall>, VaultError>)
    ensures
        r is Err <==> access_error(payer@, vault_addr@, mint_addr@, holder@, *v, *p) is Some,
        r matches Err(e) ==> access_error(payer@, vault_addr@, mint_addr@, holder@, *v, *p) == Some(e),
        r matches Ok(calls) ==> is_set_frozen_plan(calls@, holder@, mint_addr@, vault_addr@, *v, frozen),
{
    check_access(payer, vault_addr, mint_addr, holder, v, p)?;
    let mut calls: Vec<LedgerCall> = Vec::new();
    calls.push(
        LedgerCall::SetFrozen {
            account: *holder,
            mint: *mint_addr,
            frozen,
            authority: *vault_addr,
            proof: vault_proof(v),
        },
    );
    Ok(calls)
}

/// SetFrozen(true): after validation, plans freezing the signer's holder
/// account, authorized by the vault's seeds.
pub fn freeze_token_account(ctx: &FreezeTokenAccount, v: &Vault, p: &Programs) -> (r: Result<Vec<LedgerCall>, VaultError>)
    ensures
        r is Err <==> access_error(ctx.payer@, ctx.vault@, ctx.spl_token_mint@, ctx.payer_mint_ata@, *v, *p) is Some,
        r matches Err(e) ==> access_error(ctx.payer@, ctx.vault@, ctx.spl_token_mint@, ctx.payer_mint_ata@, *v, *p)
            == Some(e),
        r matches Ok(calls) ==> is_set_frozen_plan(calls@, ctx.payer_mint_ata@, ctx.spl_token_mint@, ctx.vault@, *v, true),
{
    set_frozen(&ctx.payer, &ctx.vault, &ctx.spl_token_mint, &ctx.payer_mint_ata, v, p, true)
}

/// SetFrozen(false): after validation, plans thawing the signer's holder
/// account, authorized by the vault's seeds.
pub fn unfreeze_token_account(ctx: &UnfreezeTokenAccount, v: &Vault, p: &Programs) -> (r: Result<Vec<LedgerCall>, VaultError>)
    ensures
        r is Err <==> access_error(ctx.payer@, ctx.vault@, ctx.spl_token_mint@, ctx.payer_mint_ata@, *v, *p) is Some,
        r matches Err(e) ==> access_error(ctx.payer@, ctx.vault@, ctx.spl_token_mint@, ctx.payer_mint_ata@, *v, *p)
            == Some(e),
        r matches Ok(calls) ==> is_set_frozen_plan(calls@, ctx.payer_mint_ata@, ctx.spl_token_mint@, ctx.vault@, *v, false),
{
    set_frozen(&ctx.payer, &ctx.vault, &ctx.spl_token_mint, &ctx.payer_mint_ata, v, p, false)
}

/// A vault whose bumps Initialize found re-derives, from those stored bumps
/// and the fixed labels, its own address and its recorded token-type address;
/// so the derivation checks of every later operation pass on those addresses.
pub proof fn lemma_stored_bumps_rederive(ctx: CreateMint, p: Programs, v: Vault, holder: Seq<u8>)
    requires
        derived(vault_seed_path(), p.program_id@) == Some((ctx.vault@, v.bump)),
        derived(mint_seed_path(), p.program_id@) == Some((ctx.spl_token_mint@, v.spl_token_mint_bump)),
        v.spl_token_mint@ == ctx.spl_token_mint@,
    ensures
        vault_rederives(v, ctx.vault@, p.program_id@),
        access_error(v.authority@, ctx.vault@, v.spl_token_mint@, holder, v, p) == holder_error(
            v.authority@,
            v.spl_token_mint@,
            holder,
            p,
        ),
{
    let vd = derived(vault_seed_path(), p.program_id@);
    let md = derived(mint_seed_path(), p.program_id@);
    lemma_derive_deterministic(vault_seed_path(), p.program_id@, vd, vd);
    lemma_derive_deterministic(mint_seed_path(), p.program_id@, md, md);
}

/// A stored token-type bump that no longer re-derives the supplied token-type
/// address makes the next operation of the authority fail with
/// `DerivationMismatch`.
pub proof fn lemma_corrupted_bump_refused(v: Vault, vault_addr: Seq<u8>, mint_addr: Seq<u8>, holder: Seq<u8>, p: Programs)
    requires
        program_address(with_bump(vault_seed_path(), v.bump), p.program_id@) == Some(vault_addr),
        program_address(with_bump(mint_seed_path(), v.spl_token_mint_bump), p.program_id@) != Some(mint_addr),
    ensures
        access_error(v.authority@, vault_addr, mint_addr, holder, v, p) == Some(VaultError::DerivationMismatch),
{
}

/// Initialize refuses with `AlreadyInitialized` wherever a vault exists,
/// whatever accounts it is given.
pub proof fn lemma_initialize_once(ctx: CreateMint, p: Programs)
    ensures
        init_error(ctx, true, p) == Some(VaultError::AlreadyInitialized),
{
}

/// Every Mint, Transfer or SetFrozen whose signer is not the vault's
/// authority is refused with `Unauthorized`, so no ledger call is planned.
pub proof fn lemma_unauthorized_refused(
    payer: Seq<u8>,
    vault_addr: Seq<u8>,
    mint_addr: Seq<u8>,
    holder: Seq<u8>,
    v: Vault,
    p: Programs,
    transfer: TransferTokenToAnother,
)
    requires
        payer != v.authority@,
        transfer.payer@ != v.authority@,
    ensures
        access_error(payer, vault_addr, mint_addr, holder, v, p) == Some(VaultError::Unauthorized),
        transfer_error(transfer, v, p) == Some(VaultError::Unauthorized),
{
}

} // verus!
