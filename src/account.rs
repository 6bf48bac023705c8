use vstd::prelude::*;

use crate::bytes::Address;
use crate::error::RegistryError;

verus! {

/// An account handed to an invocation: its address, the program that owns it, whether it
/// signed the transaction, its balance and its data buffer.
#[derive(Clone, Debug)]
pub struct Account {
    pub key: Address,
    pub owner: Address,
    pub is_signer: bool,
    pub lamports: u64,
    pub data: Vec<u8>,
}

/// What an [`Account`] holds, with its buffer as a sequence of bytes.
pub struct AccountView {
    pub key: Address,
    pub owner: Address,
    pub is_signer: bool,
    pub lamports: u64,
    pub data: Seq<u8>,
}

impl View for Account {
    type V = AccountView;

    open spec fn view(&self) -> AccountView {
        AccountView {
            key: self.key,
            owner: self.owner,
            is_signer: self.is_signer,
            lamports: self.lamports,
            data: self.data@,
        }
    }
}

/// Whether the account `from` can pay `fee` to `to`: `from` must hold at least `fee`, and
/// the balance of `to` must stay within `u64`.
pub open spec fn fee_check(from: u64, to: u64, fee: u64) -> Result<(), RegistryError> {
    if from < fee {
        Err(RegistryError::InsufficientFunds)
    } else if to + fee > u64::MAX {
        Err(RegistryError::ArithmeticOverflow)
    } else {
        Ok(())
    }
}

/// Decides whether a balance of `from` can pay `fee` to a balance of `to`.
pub fn check_fee(from: u64, to: u64, fee: u64) -> (r: Result<(), RegistryError>)
    ensures
        r == fee_check(from, to, fee),
{
    if from < fee {
        Err(RegistryError::InsufficientFunds)
    } else if to > u64::MAX - fee {
        Err(RegistryError::ArithmeticOverflow)
    } else {
        Ok(())
    }
}

/// Moves `fee` from the balance of `from` to the balance of `to`; nothing else changes.
pub fn transfer_fee(from: &mut Account, to: &mut Account, fee: u64)
    requires
        fee_check(old(from).lamports, old(to).lamports, fee) is Ok,
    ensures
        final(from)@ == (AccountView { lamports: (old(from).lamports - fee) as u64, ..old(from)@ }),
        final(to)@ == (AccountView { lamports: (old(to).lamports + fee) as u64, ..old(to)@ }),
{
    from.lamports = from.lamports - fee;
    to.lamports = to.lamports + fee;
}

} // verus!
