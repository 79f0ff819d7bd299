use std::str::FromStr;

use anchor_lang::prelude::Pubkey;
use token_vault::address::{derive_address, Address};
use token_vault::error::VaultError;
use token_vault::instructions::{
    create_mint, freeze_token_account, mint_seeds, transfer_mint, transfer_token_to_another,
    unfreeze_token_account, vault_seeds, CreateMint, FreezeTokenAccount, LedgerCall, Programs,
    Proof, TransferMint, TransferTokenToAnother, UnfreezeTokenAccount,
};
use token_vault::ledger::MemoryLedger;
use token_vault::vault::Vault;

const PROGRAM: &str = "29iiLtNregFkwH4n4K95GrKYcGUGC3F6D5thPE2jWQQs";

fn addr(p: &Pubkey) -> Address {
    Address::new(p.to_bytes())
}

fn programs() -> Programs {
    Programs {
        program_id: addr(&Pubkey::from_str(PROGRAM).unwrap()),
        token_program: addr(&anchor_spl::token::ID),
        associated_token_program: addr(&anchor_spl::associated_token::ID),
    }
}

fn key(n: u8) -> Address {
    Address::new([n; 32])
}

fn holder(owner: &Address, mint: &Address) -> Address {
    let ata = anchor_spl::associated_token::get_associated_token_address(
        &Pubkey::new_from_array(owner.bytes),
        &Pubkey::new_from_array(mint.bytes),
    );
    addr(&ata)
}

struct Setup {
    p: Programs,
    vault_addr: Address,
    mint_addr: Address,
    payer: Address,
    ledger: MemoryLedger,
}

fn initialized() -> Setup {
    let p = programs();
    let (vault_addr, _) = derive_address(&vault_seeds(), &p.program_id).unwrap();
    let (mint_addr, _) = derive_address(&mint_seeds(), &p.program_id).unwrap();
    let payer = key(7);
    let mut ledger = MemoryLedger::new();
    let ctx = CreateMint { spl_token_mint: mint_addr, payer, vault: vault_addr };
    let plan = create_mint(&ctx, &p, &ledger.stored_vault()).unwrap();
    ledger.execute(&plan, &p.program_id).unwrap();
    Setup { p, vault_addr, mint_addr, payer, ledger }
}

fn mint_ctx(s: &Setup, signer: Address) -> TransferMint {
    TransferMint {
        spl_token_mint: s.mint_addr,
        vault: s.vault_addr,
        payer_mint_ata: holder(&signer, &s.mint_addr),
        payer: signer,
    }
}

fn transfer_ctx(s: &Setup, signer: Address, recipient: Address) -> TransferTokenToAnother {
    TransferTokenToAnother {
        spl_token_mint: s.mint_addr,
        vault: s.vault_addr,
        payer_mint_ata: holder(&signer, &s.mint_addr),
        payer: signer,
        another_mint_ata: holder(&recipient, &s.mint_addr),
        another_account: recipient,
    }
}

fn freeze_ctx(s: &Setup, signer: Address) -> FreezeTokenAccount {
    FreezeTokenAccount {
        spl_token_mint: s.mint_addr,
        vault: s.vault_addr,
        payer: signer,
        payer_mint_ata: holder(&signer, &s.mint_addr),
    }
}

fn unfreeze_ctx(s: &Setup, signer: Address) -> UnfreezeTokenAccount {
    UnfreezeTokenAccount {
        spl_token_mint: s.mint_addr,
        vault: s.vault_addr,
        payer: signer,
        payer_mint_ata: holder(&signer, &s.mint_addr),
    }
}

fn vault_of(s: &Setup) -> Vault {
    s.ledger.stored_vault().unwrap()
}

fn run_mint(s: &mut Setup, amount: u64) -> Result<(), VaultError> {
    let v = vault_of(s);
    let plan = transfer_mint(&mint_ctx(s, s.payer), &v, &s.p, amount)?;
    s.ledger.execute(&plan, &s.p.program_id)
}

fn run_transfer(s: &mut Setup, recipient: Address, amount: u64) -> Result<(), VaultError> {
    let v = vault_of(s);
    let plan = transfer_token_to_another(&transfer_ctx(s, s.payer, recipient), &v, &s.p, amount)?;
    s.ledger.execute(&plan, &s.p.program_id)
}

#[test]
fn derive_is_deterministic() {
    let p = programs();
    let first = derive_address(&vault_seeds(), &p.program_id).unwrap();
    let second = derive_address(&vault_seeds(), &p.program_id).unwrap();
    assert_eq!(first.0.bytes, second.0.bytes);
    assert_eq!(first.1, second.1);
}

#[test]
fn derive_matches_find_program_address() {
    let p = programs();
    let pid = Pubkey::from_str(PROGRAM).unwrap();
    let (expected, bump) = Pubkey::find_program_address(&[b"spl-token-mint"], &pid);
    let (found, found_bump) = derive_address(&mint_seeds(), &p.program_id).unwrap();
    assert_eq!(found.bytes, expected.to_bytes());
    assert_eq!(found_bump, bump);
    assert_ne!(found.bytes, p.program_id.bytes);
}

#[test]
fn vault_layout_round_trip() {
    let v = Vault { bump: 254, spl_token_mint_bump: 253, authority: key(1), spl_token_mint: key(2) };
    let bytes = v.to_bytes();
    assert_eq!(bytes.len(), Vault::LEN);
    assert_eq!(bytes.len(), 66);
    assert_eq!(bytes[0], 254);
    assert_eq!(bytes[1], 253);
    assert!(bytes[2..34].iter().all(|b| *b == 1));
    assert!(bytes[34..66].iter().all(|b| *b == 2));
    let back = Vault::from_bytes(&bytes).unwrap();
    assert_eq!(back.bump, 254);
    assert_eq!(back.spl_token_mint_bump, 253);
    assert_eq!(back.authority.bytes, [1u8; 32]);
    assert_eq!(back.spl_token_mint.bytes, [2u8; 32]);
    assert!(Vault::from_bytes(&bytes[..65]).is_none());
}

#[test]
fn initialize_records_vault() {
    let s = initialized();
    let v = vault_of(&s);
    assert_eq!(v.authority.bytes, s.payer.bytes);
    assert_eq!(v.spl_token_mint.bytes, s.mint_addr.bytes);
    let pid = Pubkey::from_str(PROGRAM).unwrap();
    let (_, vault_bump) = Pubkey::find_program_address(&[b"vault"], &pid);
    assert_eq!(v.bump, vault_bump);
    assert_eq!(s.ledger.mints.len(), 1);
    assert_eq!(s.ledger.mints[0].decimals, 0);
    assert_eq!(s.ledger.mints[0].mint_authority.bytes, s.vault_addr.bytes);
    assert_eq!(s.ledger.mints[0].freeze_authority.bytes, s.vault_addr.bytes);
}

#[test]
fn initialize_twice_fails() {
    let s = initialized();
    let ctx = CreateMint { spl_token_mint: s.mint_addr, payer: s.payer, vault: s.vault_addr };
    let again = create_mint(&ctx, &s.p, &s.ledger.stored_vault());
    assert_eq!(again.unwrap_err(), VaultError::AlreadyInitialized);
}

#[test]
fn initialize_with_wrong_vault_address_fails() {
    let p = programs();
    let (mint_addr, _) = derive_address(&mint_seeds(), &p.program_id).unwrap();
    let ctx = CreateMint { spl_token_mint: mint_addr, payer: key(7), vault: key(9) };
    assert_eq!(create_mint(&ctx, &p, &None).unwrap_err(), VaultError::DerivationMismatch);
    let (vault_addr, _) = derive_address(&vault_seeds(), &p.program_id).unwrap();
    let ctx = CreateMint { spl_token_mint: key(9), payer: key(7), vault: vault_addr };
    assert_eq!(create_mint(&ctx, &p, &None).unwrap_err(), VaultError::DerivationMismatch);
}

#[test]
fn mint_ten_credits_ten() {
    let mut s = initialized();
    run_mint(&mut s, 10).unwrap();
    let ata = holder(&s.payer, &s.mint_addr);
    assert_eq!(s.ledger.balance(&ata), Some(10));
    assert_eq!(s.ledger.mints[0].supply, 10);
}

#[test]
fn mint_plan_is_signed_by_vault_seeds() {
    let s = initialized();
    let v = vault_of(&s);
    let plan = transfer_mint(&mint_ctx(&s, s.payer), &v, &s.p, 10).unwrap();
    assert_eq!(plan.len(), 2);
    match &plan[1] {
        LedgerCall::MintTo { amount, authority, proof, .. } => {
            assert_eq!(*amount, 10);
            assert_eq!(authority.bytes, s.vault_addr.bytes);
            match proof {
                Proof::Seeds { seeds, bump } => {
                    assert_eq!(seeds, &vec![b"vault".to_vec()]);
                    assert_eq!(*bump, v.bump);
                }
                Proof::Signature { .. } => panic!("expected a seed proof"),
            }
        }
        other => panic!("unexpected call {:?}", other),
    }
}

#[test]
fn transfer_one_moves_one() {
    let mut s = initialized();
    run_mint(&mut s, 10).unwrap();
    let recipient = key(42);
    let dest = holder(&recipient, &s.mint_addr);
    assert_eq!(s.ledger.balance(&dest), None);
    run_transfer(&mut s, recipient, 1).unwrap();
    let src = holder(&s.payer, &s.mint_addr);
    assert_eq!(s.ledger.balance(&src), Some(9));
    assert_eq!(s.ledger.balance(&dest), Some(1));
    run_transfer(&mut s, recipient, 1).unwrap();
    assert_eq!(s.ledger.balance(&src), Some(8));
    assert_eq!(s.ledger.balance(&dest), Some(2));
}

#[test]
fn transfer_beyond_balance_fails() {
    let mut s = initialized();
    run_mint(&mut s, 10).unwrap();
    let recipient = key(42);
    assert_eq!(run_transfer(&mut s, recipient, 11), Err(VaultError::InsufficientBalance));
    let src = holder(&s.payer, &s.mint_addr);
    assert_eq!(s.ledger.balance(&src), Some(10));
    assert_eq!(s.ledger.balance(&holder(&recipient, &s.mint_addr)), None);
}

#[test]
fn freeze_blocks_then_thaw_restores() {
    let mut s = initialized();
    run_mint(&mut s, 10).unwrap();
    let v = vault_of(&s);
    let ata = holder(&s.payer, &s.mint_addr);
    let plan = freeze_token_account(&freeze_ctx(&s, s.payer), &v, &s.p).unwrap();
    s.ledger.execute(&plan, &s.p.program_id).unwrap();
    assert!(s.ledger.frozen(&ata));
    assert_eq!(run_mint(&mut s, 5), Err(VaultError::AccountFrozen));
    assert_eq!(run_transfer(&mut s, key(42), 1), Err(VaultError::AccountFrozen));
    assert_eq!(s.ledger.balance(&ata), Some(10));
    let plan = unfreeze_token_account(&unfreeze_ctx(&s, s.payer), &v, &s.p).unwrap();
    s.ledger.execute(&plan, &s.p.program_id).unwrap();
    assert!(!s.ledger.frozen(&ata));
    run_mint(&mut s, 5).unwrap();
    run_transfer(&mut s, key(42), 1).unwrap();
    assert_eq!(s.ledger.balance(&ata), Some(14));
}

#[test]
fn other_signer_is_unauthorized() {
    let mut s = initialized();
    run_mint(&mut s, 10).unwrap();
    let v = vault_of(&s);
    let intruder = key(99);
    assert_eq!(
        transfer_mint(&mint_ctx(&s, intruder), &v, &s.p, 10).unwrap_err(),
        VaultError::Unauthorized
    );
    assert_eq!(
        transfer_token_to_another(&transfer_ctx(&s, intruder, key(42)), &v, &s.p, 1).unwrap_err(),
        VaultError::Unauthorized
    );
    assert_eq!(
        freeze_token_account(&freeze_ctx(&s, intruder), &v, &s.p).unwrap_err(),
        VaultError::Unauthorized
    );
    assert_eq!(
        unfreeze_token_account(&unfreeze_ctx(&s, intruder), &v, &s.p).unwrap_err(),
        VaultError::Unauthorized
    );
    assert_eq!(s.ledger.balance(&holder(&s.payer, &s.mint_addr)), Some(10));
    assert_eq!(s.ledger.holders.len(), 1);
}

#[test]
fn corrupted_bump_is_a_derivation_mismatch() {
    let s = initialized();
    let mut v = vault_of(&s);
    v.spl_token_mint_bump = v.spl_token_mint_bump.wrapping_sub(1);
    assert_eq!(
        transfer_mint(&mint_ctx(&s, s.payer), &v, &s.p, 10).unwrap_err(),
        VaultError::DerivationMismatch
    );
    let mut w = vault_of(&s);
    w.bump = w.bump.wrapping_sub(1);
    assert_eq!(
        freeze_token_account(&freeze_ctx(&s, s.payer), &w, &s.p).unwrap_err(),
        VaultError::DerivationMismatch
    );
}

#[test]
fn wrong_holder_account_is_a_derivation_mismatch() {
    let s = initialized();
    let v = vault_of(&s);
    let mut ctx = mint_ctx(&s, s.payer);
    ctx.payer_mint_ata = key(3);
    assert_eq!(transfer_mint(&ctx, &v, &s.p, 10).unwrap_err(), VaultError::DerivationMismatch);
    let mut tctx = transfer_ctx(&s, s.payer, key(42));
    tctx.another_mint_ata = key(3);
    assert_eq!(
        transfer_token_to_another(&tctx, &v, &s.p, 1).unwrap_err(),
        VaultError::DerivationMismatch
    );
}

#[test]
fn ledger_refuses_a_forged_mint_authority() {
    let mut s = initialized();
    run_mint(&mut s, 10).unwrap();
    let ata = holder(&s.payer, &s.mint_addr);
    let forged = vec![LedgerCall::MintTo {
        mint: s.mint_addr,
        account: ata,
        amount: 5,
        authority: s.vault_addr,
        proof: Proof::Signature { signer: s.payer },
    }];
    assert_eq!(s.ledger.execute(&forged, &s.p.program_id), Err(VaultError::InvalidAuthority));
    let wrong_invoker = vec![LedgerCall::MintTo {
        mint: s.mint_addr,
        account: ata,
        amount: 5,
        authority: s.vault_addr,
        proof: Proof::Seeds { seeds: vec![b"vault".to_vec()], bump: vault_of(&s).bump },
    }];
    assert_eq!(s.ledger.execute(&wrong_invoker, &key(5)), Err(VaultError::InvalidAuthority));
    assert_eq!(s.ledger.balance(&ata), Some(10));
}

#[test]
fn ledger_plan_is_all_or_nothing() {
    let mut s = initialized();
    run_mint(&mut s, 10).unwrap();
    let v = vault_of(&s);
    let mut plan = transfer_token_to_another(&transfer_ctx(&s, s.payer, key(42)), &v, &s.p, 1).unwrap();
    plan.push(LedgerCall::CreateHolderAccount { account: key(8), owner: key(8), mint: key(8) });
    assert_eq!(s.ledger.execute(&plan, &s.p.program_id), Err(VaultError::InvalidAccount));
    assert_eq!(s.ledger.balance(&holder(&s.payer, &s.mint_addr)), Some(10));
    assert_eq!(s.ledger.holders.len(), 1);
}

#[test]
fn ledger_refuses_overflow() {
    let mut s = initialized();
    run_mint(&mut s, u64::MAX).unwrap();
    assert_eq!(run_mint(&mut s, 1), Err(VaultError::Overflow));
}
