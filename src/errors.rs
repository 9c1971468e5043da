use vstd::prelude::*;

verus! {

/// Every failure of the library. All of them abort the enclosing transaction.
#[derive(Clone, Copy, Debug, PartialEq, Eq, Structural)]
pub enum TransferExtensionsError {
    /// One of the amounts of a multi-transfer is zero.
    AmountMustBeGreaterThanZero,
    /// The stored descriptor buffer does not have the expected header or layout.
    MalformedDescriptor,
    /// A descriptor refers to an account position that does not exist.
    IndexOutOfRange,
    /// A descriptor refers to a descriptor that is resolved only later.
    UnresolvedDependency,
    /// No bump value yields a valid program address for the given seeds.
    AddressDerivationFailed,
    /// A resolved account is not among the accounts that the caller supplied.
    MissingAccount,
    /// A statically required account is not among the supplied accounts.
    IncorrectAccount,
    /// A counter would pass its largest value.
    ArithmeticOverflow,
    /// The address to create already holds an account.
    AccountAlreadyInitialized,
    /// The program id handed to the token instruction is not a token program.
    IncorrectProgramId,
    /// The mint account's data is not a valid mint.
    InvalidMintData,
}

} // verus!
