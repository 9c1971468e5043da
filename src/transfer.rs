use vstd::prelude::*;
use solana_program::pubkey::Pubkey;
use crate::assembler::{Instruction, add_extra_accounts_for_execute_cpi, execute_cpi_spec, u64_le};
use crate::errors::TransferExtensionsError;
use crate::meta::{AccountMeta, AccountRef, Address, MetaView, metas_view};
use crate::resolver::bytes_view;

verus! {

/// The address of the token program with extensions.
pub open spec fn token_2022_id() -> Seq<u8> {
    seq![6u8, 221u8, 246u8, 225u8, 238u8, 117u8, 143u8, 222u8, 24u8, 66u8, 93u8, 188u8, 228u8, 108u8, 205u8, 218u8,
        182u8, 26u8, 252u8, 77u8, 131u8, 185u8, 13u8, 39u8, 254u8, 189u8, 249u8, 40u8, 216u8, 161u8, 139u8, 252u8]
}

/// The address of the original token program.
pub open spec fn token_id() -> Seq<u8> {
    seq![6u8, 221u8, 246u8, 225u8, 215u8, 101u8, 161u8, 147u8, 217u8, 203u8, 225u8, 70u8, 206u8, 235u8, 121u8, 172u8,
        28u8, 180u8, 133u8, 237u8, 95u8, 91u8, 55u8, 145u8, 58u8, 140u8, 245u8, 133u8, 126u8, 255u8, 0u8, 169u8]
}

/// The accounts of a `TransferChecked` call without multisig signers.
pub open spec fn transfer_metas(source: Seq<u8>, mint: Seq<u8>, destination: Seq<u8>, authority: Seq<u8>) -> Seq<MetaView> {
    seq![
        MetaView { key: source, is_signer: false, is_writable: true },
        MetaView { key: mint, is_signer: false, is_writable: false },
        MetaView { key: destination, is_signer: false, is_writable: true },
        MetaView { key: authority, is_signer: true, is_writable: false },
    ]
}

/// The payload of a `TransferChecked` call.
pub open spec fn transfer_payload(amount: u64, decimals: u8) -> Seq<u8> {
    seq![12u8] + u64_le(amount) + seq![decimals]
}

/// Relies on `spl_token_2022::instruction::transfer_checked`: it refuses a
/// program id that is not one of the two token programs, and otherwise builds
/// the call with writable source and destination, read-only mint and a signing,
/// read-only authority, and the `TransferChecked` payload.
#[verifier::external_body]
#[allow(deprecated)]
fn transfer_checked_instruction(
    token_program_id: &Address,
    source: &Address,
    mint: &Address,
    destination: &Address,
    authority: &Address,
    amount: u64,
    decimals: u8,
) -> (r: Result<Instruction, TransferExtensionsError>)
    ensures
        match r {
            Ok(ix) => (token_program_id@ == token_2022_id() || token_program_id@ == token_id())
                && ix.program_id@ == token_program_id@
                && metas_view(ix.accounts@) == transfer_metas(source@, mint@, destination@, authority@)
                && ix.data@ == transfer_payload(amount, decimals),
            Err(e) => token_program_id@ != token_2022_id() && token_program_id@ != token_id()
                && e == TransferExtensionsError::IncorrectProgramId,
        },
{
    match spl_token_2022::instruction::transfer_checked(&Pubkey::new_from_array(*token_program_id),
        &Pubkey::new_from_array(*source), &Pubkey::new_from_array(*mint), &Pubkey::new_from_array(*destination),
        &Pubkey::new_from_array(*authority), &[], amount, decimals) {
        Ok(ix) => Ok(Instruction { program_id: ix.program_id.to_bytes(), data: ix.data,
            accounts: ix.accounts.iter().map(|m| AccountMeta { pubkey: m.pubkey.to_bytes(),
                is_signer: m.is_signer, is_writable: m.is_writable }).collect() }),
        Err(_) => Err(TransferExtensionsError::IncorrectProgramId),
    }
}

/// The hook program that a mint's data configures: `None` where the data is
/// not a valid mint, `Some(None)` where the mint has no transfer hook.
pub uninterp spec fn mint_hook_of(data: Seq<u8>) -> Option<Option<Seq<u8>>>;

pub open spec fn address_option_view(o: Option<Address>) -> Option<Seq<u8>> {
    match o {
        Some(a) => Some(a@),
        None => None,
    }
}

/// Relies on `StateWithExtensions::<Mint>::unpack` and
/// `transfer_hook::get_program_id` of spl-token-2022: whether the data is a
/// valid mint, and the hook program it names, depend on the data alone.
#[verifier::external_body]
#[allow(deprecated)]
fn read_mint_hook_program(mint_data: &[u8]) -> (r: Result<Option<Address>, TransferExtensionsError>)
    ensures
        match r {
            Ok(o) => mint_hook_of(mint_data@) == Some(address_option_view(o)),
            Err(e) => mint_hook_of(mint_data@) is None && e == TransferExtensionsError::InvalidMintData,
        },
{
    match spl_token_2022::extension::StateWithExtensions::<spl_token_2022::state::Mint>::unpack(mint_data) {
        Ok(mint) => Ok(spl_token_2022::extension::transfer_hook::get_program_id(&mint).map(|p| p.to_bytes())),
        Err(_) => Err(TransferExtensionsError::InvalidMintData),
    }
}

/// The supplied accounts that sign, in order.
pub open spec fn signer_refs(pool: Seq<AccountRef>) -> Seq<AccountRef>
    decreases pool.len(),
{
    if pool.len() == 0 {
        seq![]
    } else if pool.last().is_signer {
        signer_refs(pool.drop_last()).push(pool.last())
    } else {
        signer_refs(pool.drop_last())
    }
}

/// A read-only, signing reference to each supplied signer.
pub open spec fn signer_metas(pool: Seq<AccountRef>) -> Seq<MetaView> {
    signer_refs(pool).map_values(|a: AccountRef| MetaView { key: a.key@, is_signer: true, is_writable: false })
}

/// The call of the token program that moves `amount` and the accounts handed
/// to it: the four transfer accounts, each supplied signer, then, where the
/// mint has a hook program, what the hook's meta list adds.
pub open spec fn transfer_plan_spec(
    token_program: Seq<u8>,
    source: AccountRef,
    mint: AccountRef,
    destination: AccountRef,
    authority: AccountRef,
    pool: Seq<AccountRef>,
    datas: Seq<Seq<u8>>,
    amount: u64,
    hook: Option<Seq<u8>>,
) -> Result<(Seq<MetaView>, Seq<AccountRef>), TransferExtensionsError> {
    if token_program != token_2022_id() && token_program != token_id() {
        Err(TransferExtensionsError::IncorrectProgramId)
    } else {
        let metas = transfer_metas(source.key@, mint.key@, destination.key@, authority.key@) + signer_metas(pool);
        let infos = seq![source, mint, destination, authority] + signer_refs(pool);
        match hook {
            None => Ok((metas, infos)),
            Some(p) => match execute_cpi_spec(p, source.key@, mint.key@, destination.key@, authority.key@, amount, pool, datas) {
                Err(e) => Err(e),
                Ok((ms, hs)) => Ok((metas + ms, infos + hs)),
            },
        }
    }
}

/// Builds the token program's `TransferChecked` call for a mint whose hook
/// program is `hook`, with the accounts to hand to it. `additional_data[i]` is
/// the data of `additional_accounts[i]`.
pub fn plan_transfer_checked(
    token_program_id: &Address,
    source_info: AccountRef,
    mint_info: AccountRef,
    destination_info: AccountRef,
    authority_info: AccountRef,
    additional_accounts: &[AccountRef],
    additional_data: &[Vec<u8>],
    amount: u64,
    decimals: u8,
    hook: Option<Address>,
) -> (r: Result<(Instruction, Vec<AccountRef>), TransferExtensionsError>)
    requires
        additional_data@.len() == additional_accounts@.len(),
        forall|i: int| 0 <= i < additional_data@.len() ==> #[trigger] additional_data@[i]@.len() + 5 <= usize::MAX,
    ensures
        match r {
            Ok((ix, infos)) => transfer_plan_spec(token_program_id@, source_info, mint_info, destination_info,
                authority_info, additional_accounts@, bytes_view(additional_data@), amount, address_option_view(hook))
                matches Ok((ms, hs)) && ix.program_id@ == token_program_id@ && metas_view(ix.accounts@) == ms
                && infos@ == hs && ix.data@ == transfer_payload(amount, decimals),
            Err(e) => transfer_plan_spec(token_program_id@, source_info, mint_info, destination_info,
                authority_info, additional_accounts@, bytes_view(additional_data@), amount, address_option_view(hook))
                == Err::<(Seq<MetaView>, Seq<AccountRef>), TransferExtensionsError>(e),
        },
{
    let mut cpi_instruction = transfer_checked_instruction(
        token_program_id,
        &source_info.key,
        &mint_info.key,
        &destination_info.key,
        &authority_info.key,
        amount,
        decimals,
    )?;
    let mut cpi_account_infos: Vec<AccountRef> = vec![source_info, mint_info, destination_info, authority_info];
    let ghost m0 = metas_view(cpi_instruction.accounts@);
    let ghost i0 = cpi_account_infos@;
    let mut k: usize = 0;
    while k < additional_accounts.len()
        invariant
            0 <= k <= additional_accounts@.len(),
            cpi_instruction.program_id@ == token_program_id@,
            cpi_instruction.data@ == transfer_payload(amount, decimals),
            metas_view(cpi_instruction.accounts@) == m0 + signer_metas(additional_accounts@.subrange(0, k as int)),
            cpi_account_infos@ == i0 + signer_refs(additional_accounts@.subrange(0, k as int)),
        decreases additional_accounts@.len() - k,
    {
        let ai = additional_accounts[k];
        let ghost before = additional_accounts@.subrange(0, k as int);
        let ghost after = additional_accounts@.subrange(0, k + 1);
        assert(after.drop_last() =~= before);
        if ai.is_signer {
            let ghost mb = cpi_instruction.accounts@;
            cpi_account_infos.push(ai);
            cpi_instruction.accounts.push(AccountMeta::new_readonly(ai.key, true));
            assert(metas_view(cpi_instruction.accounts@) =~= metas_view(mb).push(MetaView { key: ai.key@, is_signer: true, is_writable: false }));
            assert(signer_metas(after) =~= signer_metas(before).push(MetaView { key: ai.key@, is_signer: true, is_writable: false }));
            assert(metas_view(cpi_instruction.accounts@) =~= m0 + signer_metas(after));
            assert(cpi_account_infos@ =~= i0 + signer_refs(after));
        } else {
            assert(signer_metas(after) =~= signer_metas(before));
        }
        k = k + 1;
    }
    assert(additional_accounts@.subrange(0, k as int) =~= additional_accounts@);
    match hook {
        None => {},
        Some(program_id) => {
            add_extra_accounts_for_execute_cpi(
                &mut cpi_instruction,
                &mut cpi_account_infos,
                &program_id,
                source_info,
                mint_info,
                destination_info,
                authority_info,
                amount,
                additional_accounts,
                additional_data,
            )?;
        },
    }
    Ok((cpi_instruction, cpi_account_infos))
}

/// Builds the token program's `TransferChecked` call and its accounts, reading
/// the mint's hook program from its data.
pub fn invoke_transfer_checked(
    token_program_id: &Address,
    source_info: AccountRef,
    mint_info: AccountRef,
    destination_info: AccountRef,
    authority_info: AccountRef,
    additional_accounts: &[AccountRef],
    additional_data: &[Vec<u8>],
    amount: u64,
    decimals: u8,
    mint_data: &[u8],
) -> (r: Result<(Instruction, Vec<AccountRef>), TransferExtensionsError>)
    requires
        additional_data@.len() == additional_accounts@.len(),
        forall|i: int| 0 <= i < additional_data@.len() ==> #[trigger] additional_data@[i]@.len() + 5 <= usize::MAX,
    ensures
        match mint_hook_of(mint_data@) {
            None => r == Err::<(Instruction, Vec<AccountRef>), TransferExtensionsError>(TransferExtensionsError::InvalidMintData),
            Some(hook) => match r {
                Ok((ix, infos)) => transfer_plan_spec(token_program_id@, source_info, mint_info, destination_info,
                    authority_info, additional_accounts@, bytes_view(additional_data@), amount, hook)
                    matches Ok((ms, hs)) && ix.program_id@ == token_program_id@ && metas_view(ix.accounts@) == ms
                    && infos@ == hs && ix.data@ == transfer_payload(amount, decimals),
                Err(e) => transfer_plan_spec(token_program_id@, source_info, mint_info, destination_info,
                    authority_info, additional_accounts@, bytes_view(additional_data@), amount, hook)
                    == Err::<(Seq<MetaView>, Seq<AccountRef>), TransferExtensionsError>(e),
            },
        },
{
    let hook = read_mint_hook_program(mint_data)?;
    plan_transfer_checked(
        token_program_id,
        source_info,
        mint_info,
        destination_info,
        authority_info,
        additional_accounts,
        additional_data,
        amount,
        decimals,
        hook,
    )
}

/// Splits the supplied accounts between the two legs of a multi-transfer:
/// the first half (rounded down) goes to the first leg, the rest to the second.
pub fn split_remaining_accounts(accounts: &[AccountRef]) -> (r: (Vec<AccountRef>, Vec<AccountRef>))
    ensures
        r.0@.len() == accounts@.len() / 2,
        r.1@.len() == accounts@.len() - accounts@.len() / 2,
        r.0@ + r.1@ == accounts@,
        r.0@ == accounts@.subrange(0, (accounts@.len() / 2) as int),
        r.1@ == accounts@.subrange((accounts@.len() / 2) as int, accounts@.len() as int),
{
    let split_at_pos = accounts.len() / 2;
    let mut first: Vec<AccountRef> = Vec::new();
    let mut second: Vec<AccountRef> = Vec::new();
    let mut k: usize = 0;
    while k < accounts.len()
        invariant
            0 <= k <= accounts@.len(),
            split_at_pos == accounts@.len() / 2,
            k <= split_at_pos ==> first@ == accounts@.subrange(0, k as int) && second@.len() == 0,
            k > split_at_pos ==> first@ == accounts@.subrange(0, split_at_pos as int)
                && second@ == accounts@.subrange(split_at_pos as int, k as int),
        decreases accounts@.len() - k,
    {
        if k < split_at_pos {
            first.push(accounts[k]);
            assert(first@ =~= accounts@.subrange(0, k + 1));
        } else {
            second.push(accounts[k]);
            assert(second@ =~= accounts@.subrange(split_at_pos as int, k + 1));
        }
        k = k + 1;
    }
    if accounts.len() == split_at_pos {
        assert(second@ =~= accounts@.subrange(split_at_pos as int, accounts@.len() as int));
    }
    assert(first@ + second@ =~= accounts@);
    (first, second)
}

/// Checks the amounts of a multi-transfer and splits the supplied accounts
/// between its two legs; no account is touched when an amount is zero.
pub fn multi_transfers(amount1: u64, amount2: u64, remaining_accounts: &[AccountRef]) -> (r: Result<(Vec<AccountRef>, Vec<AccountRef>), TransferExtensionsError>)
    ensures
        (amount1 == 0 || amount2 == 0) ==> r == Err::<(Vec<AccountRef>, Vec<AccountRef>), TransferExtensionsError>(TransferExtensionsError::AmountMustBeGreaterThanZero),
        (amount1 > 0 && amount2 > 0) ==> (r matches Ok((a, b))
            && a@ == remaining_accounts@.subrange(0, (remaining_accounts@.len() / 2) as int)
            && b@ == remaining_accounts@.subrange((remaining_accounts@.len() / 2) as int, remaining_accounts@.len() as int)),
{
    if amount1 == 0 || amount2 == 0 {
        return Err(TransferExtensionsError::AmountMustBeGreaterThanZero);
    }
    Ok(split_remaining_accounts(remaining_accounts))
}

/// Checks the amounts of a multi-transfer whose first leg is handed every
/// supplied account; no account is touched when an amount is zero.
pub fn multi_transfers_heap(amount1: u64, amount2: u64, remaining_accounts: &[AccountRef]) -> (r: Result<Vec<AccountRef>, TransferExtensionsError>)
    ensures
        (amount1 == 0 || amount2 == 0) ==> r == Err::<Vec<AccountRef>, TransferExtensionsError>(TransferExtensionsError::AmountMustBeGreaterThanZero),
        (amount1 > 0 && amount2 > 0) ==> (r matches Ok(a) && a@ == remaining_accounts@),
{
    if amount1 == 0 || amount2 == 0 {
        return Err(TransferExtensionsError::AmountMustBeGreaterThanZero);
    }
    let mut all: Vec<AccountRef> = Vec::new();
    let mut k: usize = 0;
    while k < remaining_accounts.len()
        invariant
            0 <= k <= remaining_accounts@.len(),
            all@ == remaining_accounts@.subrange(0, k as int),
        decreases remaining_accounts@.len() - k,
    {
        all.push(remaining_accounts[k]);
        k = k + 1;
        assert(all@ =~= remaining_accounts@.subrange(0, k as int));
    }
    assert(all@ =~= remaining_accounts@);
    Ok(all)
}

} // verus!
