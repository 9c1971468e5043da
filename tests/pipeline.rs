use solana_program::pubkey::Pubkey;
use spl_tlv_account_resolution::account::ExtraAccountMeta;
use spl_tlv_account_resolution::seeds::Seed as PackedSeed;
use spl_tlv_account_resolution::state::ExtraAccountMetaList;
use spl_transfer_hook_interface::instruction::ExecuteInstruction;
use transfer_extensions::assembler::{add_to_cpi_instruction, Instruction};
use transfer_extensions::descriptor::{unpack_descriptor_list, unpack_seeds, DescriptorRecord, Seed, EXECUTE_TAG};
use transfer_extensions::errors::TransferExtensionsError;
use transfer_extensions::meta::{find_account, same_address, AccountMeta, AccountRef};
use transfer_extensions::meta_list::{get_extra_account_metas, get_meta_list_size, initialize_extra_account_meta_list};
use transfer_extensions::privilege::de_escalate_account_meta;
use transfer_extensions::resolver::{lookup_account_key, resolve_descriptor};
use transfer_extensions::transfer::{multi_transfers, plan_transfer_checked, split_remaining_accounts, invoke_transfer_checked};

fn key(b: u8) -> [u8; 32] {
    [b; 32]
}

fn meta(k: [u8; 32], is_signer: bool, is_writable: bool) -> AccountMeta {
    AccountMeta { pubkey: k, is_signer, is_writable }
}

fn account(k: [u8; 32]) -> AccountRef {
    AccountRef { key: k, is_signer: false, is_writable: false }
}

fn pda(program: &[u8; 32], seeds: &[&[u8]]) -> [u8; 32] {
    Pubkey::find_program_address(seeds, &Pubkey::new_from_array(*program)).0.to_bytes()
}

fn packed_list(metas: &[ExtraAccountMeta]) -> Vec<u8> {
    let mut data = vec![0u8; ExtraAccountMetaList::size_of(metas.len()).unwrap()];
    ExtraAccountMetaList::init::<ExecuteInstruction>(&mut data, metas).unwrap();
    data
}

#[test]
fn execute_tag_matches_interface() {
    let packed = spl_transfer_hook_interface::instruction::TransferHookInstruction::Execute { amount: 3 }.pack();
    assert_eq!(&EXECUTE_TAG[..], &packed[..8]);
}

#[test]
fn de_escalation_clears_ungranted_flags() {
    let outer = vec![meta(key(1), false, true), meta(key(2), true, false), meta(key(1), false, false)];
    let mut m = meta(key(1), true, true);
    de_escalate_account_meta(&mut m, &outer);
    assert!(!m.is_signer);
    assert!(m.is_writable);
    let mut m = meta(key(2), true, true);
    de_escalate_account_meta(&mut m, &outer);
    assert!(m.is_signer);
    assert!(!m.is_writable);
}

#[test]
fn de_escalation_of_unknown_address_clears_both() {
    let outer = vec![meta(key(1), true, true)];
    let mut m = meta(key(9), true, true);
    de_escalate_account_meta(&mut m, &outer);
    assert!(!m.is_signer && !m.is_writable);
    assert_eq!(m.pubkey, key(9));
}

#[test]
fn split_sixteen_accounts_evenly() {
    let accounts: Vec<AccountRef> = (0..16u8).map(|i| account(key(i))).collect();
    let (a, b) = split_remaining_accounts(&accounts);
    assert_eq!(a.len(), 8);
    assert_eq!(b.len(), 8);
    let joined: Vec<[u8; 32]> = a.iter().chain(b.iter()).map(|x| x.key).collect();
    let original: Vec<[u8; 32]> = accounts.iter().map(|x| x.key).collect();
    assert_eq!(joined, original);
}

#[test]
fn split_odd_and_empty_lists() {
    let accounts: Vec<AccountRef> = (0..5u8).map(|i| account(key(i))).collect();
    let (a, b) = split_remaining_accounts(&accounts);
    assert_eq!((a.len(), b.len()), (2, 3));
    assert_eq!(b[0].key, key(2));
    let (a, b) = split_remaining_accounts(&[]);
    assert_eq!((a.len(), b.len()), (0, 0));
}

#[test]
fn zero_amounts_are_refused() {
    let accounts: Vec<AccountRef> = (0..4u8).map(|i| account(key(i))).collect();
    assert_eq!(multi_transfers(0, 5, &accounts).unwrap_err(), TransferExtensionsError::AmountMustBeGreaterThanZero);
    assert_eq!(multi_transfers(5, 0, &accounts).unwrap_err(), TransferExtensionsError::AmountMustBeGreaterThanZero);
    let (a, b) = multi_transfers(5, 5, &accounts).unwrap();
    assert_eq!((a.len(), b.len()), (2, 2));
}

#[test]
fn same_address_and_find_account() {
    assert!(same_address(&key(3), &key(3)));
    let mut other = key(3);
    other[31] = 4;
    assert!(!same_address(&key(3), &other));
    let pool = vec![account(key(1)), account(key(2)), account(key(2))];
    assert_eq!(find_account(&pool, &key(2)), Some(1));
    assert_eq!(find_account(&pool, &key(7)), None);
}

#[test]
fn decoder_reads_packed_list() {
    let program = spl_transfer_hook_interface::solana_pubkey::Pubkey::new_from_array(key(5));
    let metas = vec![
        ExtraAccountMeta::new_with_pubkey(&program, true, false).unwrap(),
        ExtraAccountMeta::new_external_pda_with_seeds(5, &[PackedSeed::Literal { bytes: b"tag".to_vec() }, PackedSeed::AccountKey { index: 1 }], false, true).unwrap(),
    ];
    let data = packed_list(&metas);
    let recs = unpack_descriptor_list(&data).unwrap();
    assert_eq!(recs.len(), 2);
    assert_eq!(recs[0].discriminator, 0);
    assert_eq!(recs[0].address_config, key(5));
    assert!(recs[0].is_signer && !recs[0].is_writable);
    assert_eq!(recs[1].discriminator, 133);
    assert_eq!(recs[1].address_config, metas[1].address_config);
    assert!(!recs[1].is_signer && recs[1].is_writable);
}

#[test]
fn decoder_refuses_bad_tag_and_length() {
    let metas = vec![ExtraAccountMeta::default()];
    let mut data = packed_list(&metas);
    data[0] ^= 1;
    assert_eq!(unpack_descriptor_list(&data).unwrap_err(), TransferExtensionsError::MalformedDescriptor);
    let mut data = packed_list(&metas);
    data[8] = 5;
    assert_eq!(unpack_descriptor_list(&data).unwrap_err(), TransferExtensionsError::MalformedDescriptor);
    assert_eq!(unpack_descriptor_list(&[1, 2, 3]).unwrap_err(), TransferExtensionsError::MalformedDescriptor);
}

#[test]
fn seeds_unpack_in_order() {
    let mut cfg = [0u8; 32];
    cfg[..6].copy_from_slice(&[1, 2, 7, 8, 3, 4]);
    cfg[6..9].copy_from_slice(&[2, 9, 1]);
    let seeds = unpack_seeds(&cfg).unwrap();
    assert_eq!(seeds.len(), 3);
    assert!(matches!(&seeds[0], Seed::Literal { bytes } if bytes == &vec![7u8, 8]));
    assert!(matches!(seeds[1], Seed::AccountKey { index: 4 }));
    assert!(matches!(seeds[2], Seed::InstructionData { index: 9, length: 1 }));
    let mut bad = [0u8; 32];
    bad[0] = 4;
    assert_eq!(unpack_seeds(&bad).unwrap_err(), TransferExtensionsError::MalformedDescriptor);
}

#[test]
fn literal_descriptor_resolves_verbatim() {
    let rec = DescriptorRecord { discriminator: 0, address_config: key(8), is_signer: true, is_writable: false };
    let m = resolve_descriptor(&rec, &[], &key(1), &[], 0).unwrap();
    assert_eq!(m.pubkey, key(8));
    assert!(m.is_signer && !m.is_writable);
}

#[test]
fn account_key_lookup_and_errors() {
    let known = vec![meta(key(1), false, false), meta(key(2), false, false)];
    assert_eq!(lookup_account_key(&known, 1, 4).unwrap(), key(2));
    assert_eq!(lookup_account_key(&known, 3, 4).unwrap_err(), TransferExtensionsError::UnresolvedDependency);
    assert_eq!(lookup_account_key(&known, 4, 4).unwrap_err(), TransferExtensionsError::IndexOutOfRange);
}

#[test]
fn computed_descriptor_matches_program_derivation() {
    let hook = key(7);
    let mut cfg = [0u8; 32];
    cfg[..7].copy_from_slice(&[1, 3, b'a', b'b', b'c', 3, 0]);
    let mut cfg2 = cfg;
    cfg2[7..10].copy_from_slice(&[2, 1, 2]);
    let known = vec![meta(key(4), false, false)];
    let rec = DescriptorRecord { discriminator: 1, address_config: cfg, is_signer: false, is_writable: true };
    let m = resolve_descriptor(&rec, &[9, 8, 7], &hook, &known, 1).unwrap();
    assert_eq!(m.pubkey, pda(&hook, &[b"abc", &key(4)]));
    assert!(m.is_writable);
    // an external program at position 0, with a payload slice as a further seed
    let rec = DescriptorRecord { discriminator: 128, address_config: cfg2, is_signer: false, is_writable: false };
    let cfg2_seeds: [&[u8]; 3] = [b"abc", &key(4), &[8, 7]];
    let m = resolve_descriptor(&rec, &[9, 8, 7], &hook, &known, 1).unwrap();
    assert_eq!(m.pubkey, pda(&key(4), &cfg2_seeds));
    let short = resolve_descriptor(&rec, &[9, 8], &hook, &known, 1).unwrap_err();
    assert_eq!(short, TransferExtensionsError::IndexOutOfRange);
}

#[test]
fn resolved_accounts_are_clamped_and_served() {
    let hook = key(7);
    let metas = vec![ExtraAccountMeta::new_with_pubkey(&spl_transfer_hook_interface::solana_pubkey::Pubkey::new_from_array(key(3)), true, true).unwrap()];
    let data = packed_list(&metas);
    let mut ix = Instruction { program_id: hook, accounts: vec![meta(key(3), false, true)], data: vec![] };
    let mut infos = vec![account(key(3))];
    let pool = vec![account(key(9)), AccountRef { key: key(3), is_signer: false, is_writable: true }];
    add_to_cpi_instruction(&mut ix, &mut infos, &data, &pool).unwrap();
    assert_eq!(ix.accounts.len(), 2);
    assert_eq!(ix.accounts[1].pubkey, key(3));
    assert!(!ix.accounts[1].is_signer);
    assert!(ix.accounts[1].is_writable);
    assert_eq!(infos[1].key, key(3));
    assert!(infos[1].is_writable);
    let mut ix = Instruction { program_id: hook, accounts: vec![], data: vec![] };
    let mut infos = vec![];
    assert_eq!(add_to_cpi_instruction(&mut ix, &mut infos, &data, &[account(key(9))]).unwrap_err(), TransferExtensionsError::MissingAccount);
}

#[test]
fn meta_list_size_and_contents() {
    assert_eq!(get_meta_list_size(&key(5)).unwrap(), 16 + 35 * 8);
    let recs = get_extra_account_metas(&key(5)).unwrap();
    assert_eq!(recs.len(), 8);
    assert_eq!(recs[0].address_config, key(5));
    assert!(recs[1..].iter().all(|r| r.discriminator == 133 && !r.is_signer && !r.is_writable));
    assert_eq!(&recs[1].address_config[..16], &[1, 10, b'c', b'o', b'u', b'n', b't', b'e', b'r', b'_', b'i', b'n', 3, 0, 0, 0]);
}

#[test]
fn meta_list_is_written_once_and_reads_back() {
    let mut account_data: Option<Vec<u8>> = None;
    initialize_extra_account_meta_list(&mut account_data, &key(5)).unwrap();
    let written = account_data.clone().unwrap();
    assert_eq!(written.len(), 296);
    let recs = unpack_descriptor_list(&written).unwrap();
    let expected = get_extra_account_metas(&key(5)).unwrap();
    assert_eq!(recs.len(), expected.len());
    for (a, b) in recs.iter().zip(expected.iter()) {
        assert_eq!((a.discriminator, a.address_config, a.is_signer, a.is_writable), (b.discriminator, b.address_config, b.is_signer, b.is_writable));
    }
    assert_eq!(initialize_extra_account_meta_list(&mut account_data, &key(6)).unwrap_err(), TransferExtensionsError::AccountAlreadyInitialized);
    assert_eq!(account_data.unwrap(), written);
}

#[test]
fn transfer_without_hook_and_with_bad_program() {
    let token = spl_token_2022::ID.to_bytes();
    let signer = AccountRef { key: key(20), is_signer: true, is_writable: false };
    let pool = vec![account(key(21)), signer];
    let data = vec![vec![], vec![]];
    let (ix, infos) = plan_transfer_checked(&token, account(key(1)), account(key(2)), account(key(3)), account(key(4)), &pool, &data, 500, 6, None).unwrap();
    assert_eq!(ix.program_id, token);
    assert_eq!(ix.accounts.len(), 5);
    assert!(ix.accounts[0].is_writable && !ix.accounts[1].is_writable && ix.accounts[2].is_writable);
    assert!(ix.accounts[3].is_signer);
    assert_eq!(ix.accounts[4].pubkey, key(20));
    assert!(ix.accounts[4].is_signer && !ix.accounts[4].is_writable);
    assert_eq!(infos.len(), 5);
    let mut payload = vec![12u8];
    payload.extend_from_slice(&500u64.to_le_bytes());
    payload.push(6);
    assert_eq!(ix.data, payload);
    let err = plan_transfer_checked(&key(9), account(key(1)), account(key(2)), account(key(3)), account(key(4)), &pool, &data, 500, 6, None).unwrap_err();
    assert_eq!(err, TransferExtensionsError::IncorrectProgramId);
    let err = invoke_transfer_checked(&token, account(key(1)), account(key(2)), account(key(3)), account(key(4)), &pool, &data, 500, 6, &[]).unwrap_err();
    assert_eq!(err, TransferExtensionsError::InvalidMintData);
}

#[test]
fn failed_resolution_leaves_the_call_unchanged() {
    let hook = key(7);
    let metas = vec![
        ExtraAccountMeta::new_with_pubkey(&spl_transfer_hook_interface::solana_pubkey::Pubkey::new_from_array(key(3)), false, false).unwrap(),
        ExtraAccountMeta::new_with_pubkey(&spl_transfer_hook_interface::solana_pubkey::Pubkey::new_from_array(key(4)), false, false).unwrap(),
    ];
    let data = packed_list(&metas);
    let mut ix = Instruction { program_id: hook, accounts: vec![meta(key(1), true, true)], data: vec![] };
    let mut infos = vec![account(key(1))];
    let err = add_to_cpi_instruction(&mut ix, &mut infos, &data, &[account(key(3))]).unwrap_err();
    assert_eq!(err, TransferExtensionsError::MissingAccount);
    assert_eq!(ix.accounts.len(), 1);
    assert_eq!(infos.len(), 1);
    let mut bad = data.clone();
    bad[3] ^= 0xff;
    let err = add_to_cpi_instruction(&mut ix, &mut infos, &bad, &[account(key(3)), account(key(4))]).unwrap_err();
    assert_eq!(err, TransferExtensionsError::MalformedDescriptor);
    assert_eq!((ix.accounts.len(), infos.len()), (1, 1));
}
