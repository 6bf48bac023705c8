use vstd::prelude::*;

use crate::bytes::Address;

verus! {

/// The payment account that collects registration fees, in base58.
pub const PAYMENT_ACCOUNT_ADDRESS: &'static str = "Gsun7cGFrSUm3N8TEBq7Uu9xz4c9cE4pKdbtETQiSgZX";

/// The account that points at the counter, in base58.
pub const COUNTER_POINTER_ADDRESS: &'static str = "2Q8AV9MbnKYoVR1ttvmsDUxrNZUKuaDEEr3woFQToTYA";

/// The fee, in balance units, that one registration moves to the payment account.
pub const REGISTRATION_FEE: u64 = 1_000_000_000;

/// The 32 bytes that the base58 text `s` decodes to, or `None` where it is not the text
/// of an address.
pub uninterp spec fn base58_address(s: Seq<char>) -> Option<Seq<u8>>;

/// Relies on `solana_program::pubkey::Pubkey::from_str`: text of at most 44 bytes whose
/// base58 decoding is exactly 32 bytes gives those bytes; other text is refused.
#[verifier::external_body]
fn parse_address(s: &str) -> (r: Option<Address>)
    ensures
        match r {
            Some(a) => base58_address(s@) == Some(a@),
            None => base58_address(s@) is None,
        },
{
    match <solana_program::pubkey::Pubkey as std::str::FromStr>::from_str(s) {
        Ok(key) => Some(key.to_bytes()),
        Err(_) => None,
    }
}

/// The well-known values that registrations are checked against.
#[derive(Clone, Copy, Debug, PartialEq, Eq)]
pub struct Config {
    pub payment_address: Address,
    pub counter_pointer_address: Address,
    pub registration_fee: u64,
}

impl Config {
    /// Builds a configuration from two base58 addresses and a fee; `None` where either text
    /// is not an address.
    pub fn from_base58(payment: &str, counter_pointer: &str, registration_fee: u64) -> (r:
        Option<Config>)
        ensures
            match r {
                Some(c) => base58_address(payment@) == Some(c.payment_address@)
                    && base58_address(counter_pointer@) == Some(c.counter_pointer_address@)
                    && c.registration_fee == registration_fee,
                None => base58_address(payment@) is None || base58_address(
                    counter_pointer@,
                ) is None,
            },
    {
        let payment_address = match parse_address(payment) {
            Some(a) => a,
            None => return None,
        };
        let counter_pointer_address = match parse_address(counter_pointer) {
            Some(a) => a,
            None => return None,
        };
        Some(Config { payment_address, counter_pointer_address, registration_fee })
    }

    /// The deployed configuration: the compiled-in payment and counter-pointer addresses
    /// and fee.
    pub fn deployed() -> (r: Option<Config>)
        ensures
            match r {
                Some(c) => base58_address(PAYMENT_ACCOUNT_ADDRESS@) == Some(c.payment_address@)
                    && base58_address(COUNTER_POINTER_ADDRESS@) == Some(
                    c.counter_pointer_address@,
                ) && c.registration_fee == REGISTRATION_FEE,
                None => base58_address(PAYMENT_ACCOUNT_ADDRESS@) is None || base58_address(
                    COUNTER_POINTER_ADDRESS@,
                ) is None,
            },
    {
        Config::from_base58(PAYMENT_ACCOUNT_ADDRESS, COUNTER_POINTER_ADDRESS, REGISTRATION_FEE)
    }
}

} // verus!
