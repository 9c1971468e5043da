use solana_program::pubkey::Pubkey;
use spl_tlv_account_resolution::account::ExtraAccountMeta;
use spl_tlv_account_resolution::seeds::Seed as PackedSeed;
use spl_tlv_account_resolution::state::ExtraAccountMetaList;
use spl_token_2022::extension::transfer_hook::TransferHook;
use spl_token_2022::extension::{BaseStateWithExtensionsMut, ExtensionType, StateWithExtensionsMut};
use spl_token_2022::state::Mint;
use spl_transfer_hook_interface::instruction::ExecuteInstruction;
use transfer_extensions::assembler::{add_extra_accounts_for_execute_cpi, Instruction};
use transfer_extensions::errors::TransferExtensionsError;
use transfer_extensions::meta::AccountRef;
use transfer_extensions::transfer::invoke_transfer_checked;

fn key(b: u8) -> [u8; 32] {
    [b; 32]
}

fn account(k: [u8; 32]) -> AccountRef {
    AccountRef { key: k, is_signer: false, is_writable: false }
}

fn pda(program: &[u8; 32], seeds: &[&[u8]]) -> [u8; 32] {
    Pubkey::find_program_address(seeds, &Pubkey::new_from_array(*program)).0.to_bytes()
}

fn amount_seeded_list() -> Vec<u8> {
    let metas = vec![ExtraAccountMeta::new_with_seeds(&[PackedSeed::InstructionData { index: 8, length: 8 }], false, true).unwrap()];
    let mut data = vec![0u8; ExtraAccountMetaList::size_of(metas.len()).unwrap()];
    ExtraAccountMetaList::init::<ExecuteInstruction>(&mut data, &metas).unwrap();
    data
}

fn hooked_mint(hook: [u8; 32]) -> Vec<u8> {
    let len = ExtensionType::try_calculate_account_len::<Mint>(&[ExtensionType::TransferHook]).unwrap();
    let mut buf = vec![0u8; len];
    let mut state = StateWithExtensionsMut::<Mint>::unpack_uninitialized(&mut buf).unwrap();
    let ext = state.init_extension::<TransferHook>(true).unwrap();
    ext.program_id = Pubkey::new_from_array(hook).into();
    state.base.decimals = 6;
    state.base.is_initialized = true;
    state.pack_base();
    state.init_account_type().unwrap();
    buf
}

#[test]
fn hook_payload_seeds_carry_the_amount() {
    let hook = key(40);
    let mint = key(2);
    let meta_list_address = pda(&hook, &[b"extra-account-metas", &mint]);
    let resolved = pda(&hook, &[&77u64.to_le_bytes()]);
    let pool = vec![account(hook), account(meta_list_address), AccountRef { key: resolved, is_signer: false, is_writable: true }];
    let data = vec![vec![], amount_seeded_list(), vec![]];
    let mut ix = Instruction { program_id: key(99), accounts: vec![], data: vec![] };
    let mut infos = vec![];
    add_extra_accounts_for_execute_cpi(&mut ix, &mut infos, &hook, account(key(1)), account(mint), account(key(3)), account(key(4)), 77, &pool, &data).unwrap();
    let keys: Vec<[u8; 32]> = ix.accounts.iter().map(|m| m.pubkey).collect();
    assert_eq!(keys, vec![resolved, hook, meta_list_address]);
    // the execute call grants no write access to the resolved account
    assert!(!ix.accounts[0].is_writable);
    assert_eq!(infos[0].key, resolved);
}

#[test]
fn hook_accounts_must_be_supplied() {
    let hook = key(40);
    let mint = key(2);
    let meta_list_address = pda(&hook, &[b"extra-account-metas", &mint]);
    let mut ix = Instruction { program_id: key(99), accounts: vec![], data: vec![] };
    let mut infos = vec![];
    let err = add_extra_accounts_for_execute_cpi(&mut ix, &mut infos, &hook, account(key(1)), account(mint), account(key(3)), account(key(4)), 77, &[account(hook)], &[vec![]]).unwrap_err();
    assert_eq!(err, TransferExtensionsError::IncorrectAccount);
    let err = add_extra_accounts_for_execute_cpi(&mut ix, &mut infos, &hook, account(key(1)), account(mint), account(key(3)), account(key(4)), 77, &[account(meta_list_address)], &[amount_seeded_list()]).unwrap_err();
    assert_eq!(err, TransferExtensionsError::IncorrectAccount);
    assert!(ix.accounts.is_empty() && infos.is_empty());
}

#[test]
fn mint_with_hook_extends_the_transfer() {
    let token = spl_token_2022::ID.to_bytes();
    let hook = key(40);
    let mint = key(2);
    let meta_list_address = pda(&hook, &[b"extra-account-metas", &mint]);
    let resolved = pda(&hook, &[&9u64.to_le_bytes()]);
    let pool = vec![account(hook), account(meta_list_address), account(resolved)];
    let data = vec![vec![], amount_seeded_list(), vec![]];
    let mint_data = hooked_mint(hook);
    let (ix, infos) = invoke_transfer_checked(&token, account(key(1)), account(mint), account(key(3)),
        AccountRef { key: key(4), is_signer: true, is_writable: false }, &pool, &data, 9, 6, &mint_data).unwrap();
    let keys: Vec<[u8; 32]> = ix.accounts.iter().map(|m| m.pubkey).collect();
    assert_eq!(keys, vec![key(1), mint, key(3), key(4), resolved, hook, meta_list_address]);
    assert_eq!(infos.len(), 7);
    let mut plain = vec![0u8; ExtensionType::try_calculate_account_len::<Mint>(&[]).unwrap()];
    let mut state = StateWithExtensionsMut::<Mint>::unpack_uninitialized(&mut plain).unwrap();
    state.base.is_initialized = true;
    state.pack_base();
    state.init_account_type().unwrap();
    let (ix, _) = invoke_transfer_checked(&token, account(key(1)), account(mint), account(key(3)),
        account(key(4)), &pool, &data, 9, 6, &plain).unwrap();
    assert_eq!(ix.accounts.len(), 4);
}
