use vstd::prelude::*;

verus! {

/// Why an invocation was refused. Every refusal is terminal: the invocation has no effect.
#[derive(Clone, Copy, Debug, PartialEq, Eq, Structural)]
pub enum RegistryError {
    /// A participant account failed an identity, ownership, signer, length or state check,
    /// or a stored record did not decode.
    InvalidAccountData,
    /// The instruction payload has the wrong length or is not text where text is required.
    InvalidInstructionData,
    /// The account that pays the fee holds less than the fee.
    InsufficientFunds,
    /// A balance or the counter would leave the range of `u64`.
    ArithmeticOverflow,
}

} // verus!
