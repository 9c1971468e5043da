use vstd::prelude::*;
use crate::errors::TransferExtensionsError;
use crate::meta::Address;

verus! {

/// The single global counter of hook executions.
#[derive(Clone, Copy, Debug)]
pub struct GlobalProgramData {
    pub transfers_count: u64,
}

/// The counter of incoming transfers of a mint.
#[derive(Clone, Copy, Debug)]
pub struct MintCounterIn {
    pub transfers_count: u64,
    pub mint: Address,
}

/// The counter of outgoing transfers of a mint.
#[derive(Clone, Copy, Debug)]
pub struct MintCounterOut {
    pub transfers_count: u64,
    pub mint: Address,
}

/// The counter of incoming transfers of a token account.
#[derive(Clone, Copy, Debug)]
pub struct WalletCounterIn {
    pub transfers_count: u64,
    pub owner: Address,
}

/// The counter of outgoing transfers of a token account.
#[derive(Clone, Copy, Debug)]
pub struct WalletCounterOut {
    pub transfers_count: u64,
    pub owner: Address,
}

/// Creates an account once: an address that already holds one is refused and
/// left as it is.
pub fn create_account<T>(slot: &mut Option<T>, value: T) -> (r: Result<(), TransferExtensionsError>)
    ensures
        (*old(slot)) is Some ==> r == Err::<(), TransferExtensionsError>(TransferExtensionsError::AccountAlreadyInitialized)
            && *final(slot) == *old(slot),
        (*old(slot)) is None ==> r is Ok && *final(slot) == Some(value),
{
    if slot.is_some() {
        return Err(TransferExtensionsError::AccountAlreadyInitialized);
    }
    *slot = Some(value);
    Ok(())
}

/// Creates the global counter at zero.
pub fn initialize_program_data(program_counter: &mut Option<GlobalProgramData>) -> (r: Result<(), TransferExtensionsError>)
    ensures
        (*old(program_counter)) is Some ==> r == Err::<(), TransferExtensionsError>(TransferExtensionsError::AccountAlreadyInitialized)
            && *final(program_counter) == *old(program_counter),
        (*old(program_counter)) is None ==> r is Ok && *final(program_counter) == Some(GlobalProgramData { transfers_count: 0 }),
{
    create_account(program_counter, GlobalProgramData { transfers_count: 0 })
}

/// Creates the incoming counter of `mint` at zero.
pub fn initialize_mint_counter_in(counter_in: &mut Option<MintCounterIn>, mint: Address) -> (r: Result<(), TransferExtensionsError>)
    ensures
        (*old(counter_in)) is Some ==> r == Err::<(), TransferExtensionsError>(TransferExtensionsError::AccountAlreadyInitialized)
            && *final(counter_in) == *old(counter_in),
        (*old(counter_in)) is None ==> r is Ok && *final(counter_in) == Some(MintCounterIn { transfers_count: 0, mint }),
{
    create_account(counter_in, MintCounterIn { transfers_count: 0, mint })
}

/// Creates the outgoing counter of `mint` at zero.
pub fn initialize_mint_counter_out(counter_out: &mut Option<MintCounterOut>, mint: Address) -> (r: Result<(), TransferExtensionsError>)
    ensures
        (*old(counter_out)) is Some ==> r == Err::<(), TransferExtensionsError>(TransferExtensionsError::AccountAlreadyInitialized)
            && *final(counter_out) == *old(counter_out),
        (*old(counter_out)) is None ==> r is Ok && *final(counter_out) == Some(MintCounterOut { transfers_count: 0, mint }),
{
    create_account(counter_out, MintCounterOut { transfers_count: 0, mint })
}

/// Creates the incoming counter of a token account of `owner` at zero.
pub fn initialize_wallet_counter_in(counter_in: &mut Option<WalletCounterIn>, owner: Address) -> (r: Result<(), TransferExtensionsError>)
    ensures
        (*old(counter_in)) is Some ==> r == Err::<(), TransferExtensionsError>(TransferExtensionsError::AccountAlreadyInitialized)
            && *final(counter_in) == *old(counter_in),
        (*old(counter_in)) is None ==> r is Ok && *final(counter_in) == Some(WalletCounterIn { transfers_count: 0, owner }),
{
    create_account(counter_in, WalletCounterIn { transfers_count: 0, owner })
}

/// Creates the outgoing counter of a token account of `owner` at zero.
pub fn initialize_wallet_counter_out(counter_out: &mut Option<WalletCounterOut>, owner: Address) -> (r: Result<(), TransferExtensionsError>)
    ensures
        (*old(counter_out)) is Some ==> r == Err::<(), TransferExtensionsError>(TransferExtensionsError::AccountAlreadyInitialized)
            && *final(counter_out) == *old(counter_out),
        (*old(counter_out)) is None ==> r is Ok && *final(counter_out) == Some(WalletCounterOut { transfers_count: 0, owner }),
{
    create_account(counter_out, WalletCounterOut { transfers_count: 0, owner })
}

/// The counters that a hook execution sees.
#[derive(Clone, Copy, Debug)]
pub struct ExecuteTransferHook {
    pub wallet_counter_in_from: WalletCounterIn,
    pub wallet_counter_in_to: WalletCounterIn,
    pub wallet_counter_out_from: WalletCounterOut,
    pub wallet_counter_out_to: WalletCounterOut,
    pub mint_counter_in: MintCounterIn,
    pub mint_counter_out: MintCounterOut,
    pub global_program_data: GlobalProgramData,
}

/// Counts one transfer: the five counters that a hook execution updates each
/// grow by one, and nothing else changes. Where one of them would pass
/// `u64::MAX` nothing changes and the execution fails.
pub fn handler(ctx: &mut ExecuteTransferHook, amount: u64) -> (r: Result<(), TransferExtensionsError>)
    ensures
        ({
            let o = *old(ctx);
            let f = *final(ctx);
            let fits = o.wallet_counter_in_from.transfers_count < u64::MAX
                && o.wallet_counter_out_to.transfers_count < u64::MAX
                && o.mint_counter_in.transfers_count < u64::MAX
                && o.mint_counter_out.transfers_count < u64::MAX
                && o.global_program_data.transfers_count < u64::MAX;
            &&& fits ==> r is Ok
                && f.wallet_counter_in_from == (WalletCounterIn { transfers_count: (o.wallet_counter_in_from.transfers_count + 1) as u64, ..o.wallet_counter_in_from })
                && f.wallet_counter_out_to == (WalletCounterOut { transfers_count: (o.wallet_counter_out_to.transfers_count + 1) as u64, ..o.wallet_counter_out_to })
                && f.mint_counter_in == (MintCounterIn { transfers_count: (o.mint_counter_in.transfers_count + 1) as u64, ..o.mint_counter_in })
                && f.mint_counter_out == (MintCounterOut { transfers_count: (o.mint_counter_out.transfers_count + 1) as u64, ..o.mint_counter_out })
                && f.global_program_data.transfers_count == o.global_program_data.transfers_count + 1
                && f.wallet_counter_in_to == o.wallet_counter_in_to
                && f.wallet_counter_out_from == o.wallet_counter_out_from
            &&& !fits ==> r == Err::<(), TransferExtensionsError>(TransferExtensionsError::ArithmeticOverflow) && f == o
        }),
{
    if ctx.wallet_counter_in_from.transfers_count == u64::MAX
        || ctx.wallet_counter_out_to.transfers_count == u64::MAX
        || ctx.mint_counter_in.transfers_count == u64::MAX
        || ctx.mint_counter_out.transfers_count == u64::MAX
        || ctx.global_program_data.transfers_count == u64::MAX
    {
        return Err(TransferExtensionsError::ArithmeticOverflow);
    }
    ctx.wallet_counter_in_from.transfers_count = ctx.wallet_counter_in_from.transfers_count + 1;
    ctx.wallet_counter_out_to.transfers_count = ctx.wallet_counter_out_to.transfers_count + 1;
    ctx.mint_counter_in.transfers_count = ctx.mint_counter_in.transfers_count + 1;
    ctx.mint_counter_out.transfers_count = ctx.mint_counter_out.transfers_count + 1;
    ctx.global_program_data.transfers_count = ctx.global_program_data.transfers_count + 1;
    Ok(())
}

} // verus!
