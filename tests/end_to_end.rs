use solana_program::pubkey::Pubkey;
use transfer_extensions::meta::AccountRef;
use transfer_extensions::meta_list::initialize_extra_account_meta_list;
use transfer_extensions::states::{
    handler, ExecuteTransferHook, GlobalProgramData, MintCounterIn, MintCounterOut, WalletCounterIn, WalletCounterOut,
};
use transfer_extensions::transfer::{multi_transfers, plan_transfer_checked};

fn key(b: u8) -> [u8; 32] {
    [b; 32]
}

fn pda(program: &[u8; 32], seeds: &[&[u8]]) -> [u8; 32] {
    Pubkey::find_program_address(seeds, &Pubkey::new_from_array(*program)).0.to_bytes()
}

fn account(k: [u8; 32]) -> AccountRef {
    AccountRef { key: k, is_signer: false, is_writable: false }
}

struct Addresses {
    in_source: [u8; 32],
    in_dest: [u8; 32],
    out_source: [u8; 32],
    out_dest: [u8; 32],
    in_mint: [u8; 32],
    out_mint: [u8; 32],
    global: [u8; 32],
}

fn counter_addresses(counters: &[u8; 32], source: &[u8; 32], mint: &[u8; 32], dest: &[u8; 32]) -> Addresses {
    Addresses {
        in_source: pda(counters, &[b"counter_in", source]),
        in_dest: pda(counters, &[b"counter_in", dest]),
        out_source: pda(counters, &[b"counter_out", source]),
        out_dest: pda(counters, &[b"counter_out", dest]),
        in_mint: pda(counters, &[b"counter_in", mint]),
        out_mint: pda(counters, &[b"counter_out", mint]),
        global: pda(counters, &[b"global_program_data"]),
    }
}

#[test]
fn two_hooked_legs_end_to_end() {
    let token = spl_token_2022::ID.to_bytes();
    let hook = key(50);
    let counters = key(60);
    let (source, mint, dest1, dest2, authority) = (key(1), key(2), key(3), key(4), key(5));
    let meta_list_address = pda(&hook, &[b"extra-account-metas", &mint]);
    let mut meta_list = None;
    initialize_extra_account_meta_list(&mut meta_list, &counters).unwrap();
    let meta_list = meta_list.unwrap();

    let legs = [counter_addresses(&counters, &source, &mint, &dest1), counter_addresses(&counters, &source, &mint, &dest2)];
    let mut pool = Vec::new();
    let mut data = Vec::new();
    for a in legs.iter() {
        for k in [hook, counters, meta_list_address, a.in_source, a.in_dest, a.out_source, a.out_dest, a.in_mint, a.out_mint, a.global] {
            pool.push(account(k));
            data.push(if k == meta_list_address { meta_list.clone() } else { vec![] });
        }
    }
    let (amount1, amount2) = (700u64, 300u64);
    let (first, second) = multi_transfers(amount1, amount2, &pool).unwrap();
    assert_eq!((first.len(), second.len()), (10, 10));
    let halves = [(&first, &data[..10], dest1, amount1), (&second, &data[10..], dest2, amount2)];

    let mut moved = 0u64;
    let mut state = ExecuteTransferHook {
        wallet_counter_in_from: WalletCounterIn { transfers_count: 0, owner: source },
        wallet_counter_in_to: WalletCounterIn { transfers_count: 0, owner: dest1 },
        wallet_counter_out_from: WalletCounterOut { transfers_count: 0, owner: source },
        wallet_counter_out_to: WalletCounterOut { transfers_count: 0, owner: dest1 },
        mint_counter_in: MintCounterIn { transfers_count: 0, mint },
        mint_counter_out: MintCounterOut { transfers_count: 0, mint },
        global_program_data: GlobalProgramData { transfers_count: 0 },
    };
    for (i, (leg, leg_data, dest, amount)) in halves.iter().enumerate() {
        let (ix, infos) = plan_transfer_checked(&token, account(source), account(mint), account(*dest),
            AccountRef { key: authority, is_signer: true, is_writable: false }, leg, leg_data, *amount, 6, Some(hook)).unwrap();
        let a = &legs[i];
        let keys: Vec<[u8; 32]> = ix.accounts.iter().map(|m| m.pubkey).collect();
        assert_eq!(keys, vec![source, mint, *dest, authority, counters, a.in_source, a.in_dest, a.out_source, a.out_dest,
            a.in_mint, a.out_mint, a.global, hook, meta_list_address]);
        assert!(ix.accounts[4..].iter().all(|m| !m.is_signer && !m.is_writable));
        let info_keys: Vec<[u8; 32]> = infos.iter().map(|x| x.key).collect();
        assert_eq!(info_keys.len(), 14);
        assert_eq!(info_keys[4..12], keys[4..12]);
        assert_eq!(info_keys[12], hook);
        assert_eq!(info_keys[13], meta_list_address);
        moved += u64::from_le_bytes(ix.data[1..9].try_into().unwrap());
        let before = state.global_program_data.transfers_count;
        handler(&mut state, *amount).unwrap();
        assert_eq!(state.global_program_data.transfers_count, before + 1);
    }
    assert_eq!(moved, amount1 + amount2);
    assert_eq!(state.mint_counter_in.transfers_count, 2);
    assert_eq!(state.mint_counter_out.transfers_count, 2);
    assert_eq!(state.wallet_counter_in_from.transfers_count, 2);
    assert_eq!(state.wallet_counter_out_to.transfers_count, 2);
    assert_eq!(state.wallet_counter_in_to.transfers_count, 0);
}
