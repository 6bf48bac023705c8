use vstd::prelude::*;

use crate::account::{check_fee, fee_check, transfer_fee, Account, AccountView};
use crate::bytes::{lemma_u64_of_le, read_address, same_address, u64_le, u64_of_le, Address};
use crate::config::Config;
use crate::error::RegistryError;
use crate::records::{
    AccountRecord, Counter, Instruction, Pointer, ACCOUNT_RECORD_FLAG_OFFSET, ACCOUNT_RECORD_LEN,
    POINTER_FLAG_OFFSET, POINTER_LEN, REGISTER_LEN, Register,
};

verus! {

/// The bytes of the pointer, marked initialized, that names the first 32 bytes of `payload`.
pub open spec fn pointer_entry(payload: Seq<u8>) -> Seq<u8> {
    payload.subrange(0, 32) + seq![1u8]
}

/// What storing a pointer does: the payload's first 32 bytes name the target; the storage
/// account must be owned by the program, hold at least a pointer's bytes, and have a clear
/// flag byte. On success the storage account's data starts with the new pointer.
pub open spec fn proxy_pointer_step(program_id: Address, storage: AccountView, payload: Seq<u8>) -> Result<
    AccountView,
    RegistryError,
> {
    if payload.len() < 32 {
        Err(RegistryError::InvalidInstructionData)
    } else if storage.owner@ != program_id@ {
        Err(RegistryError::InvalidAccountData)
    } else if storage.data.len() < POINTER_LEN {
        Err(RegistryError::InvalidAccountData)
    } else if storage.data[POINTER_FLAG_OFFSET as int] != 0 {
        Err(RegistryError::InvalidAccountData)
    } else {
        Ok(
            AccountView {
                data: pointer_entry(payload) + storage.data.subrange(
                    POINTER_LEN as int,
                    storage.data.len() as int,
                ),
                ..storage
            },
        )
    }
}

/// Stores in `storage` a pointer to the address that `instruction_data` starts with.
/// On failure nothing changes.
pub fn process_proxy_pointer(program_id: &Address, storage: &mut Account, instruction_data: &[u8]) -> (r:
    Result<(), RegistryError>)
    ensures
        match proxy_pointer_step(*program_id, old(storage)@, instruction_data@) {
            Ok(s) => r is Ok && final(storage)@ == s,
            Err(e) => r == Err::<(), RegistryError>(e) && final(storage)@ == old(storage)@,
        },
{
    if instruction_data.len() < 32 {
        return Err(RegistryError::InvalidInstructionData);
    }
    if !same_address(&storage.owner, program_id) {
        return Err(RegistryError::InvalidAccountData);
    }
    if storage.data.len() < POINTER_LEN {
        return Err(RegistryError::InvalidAccountData);
    }
    if storage.data[POINTER_FLAG_OFFSET] != 0 {
        return Err(RegistryError::InvalidAccountData);
    }
    let target = read_address(instruction_data, 0);
    let pointer = Pointer { token_address: target, is_initialized: true };
    pointer.pack_into_slice(storage.data.as_mut_slice());
    assert(pointer.encoding() =~= pointer_entry(instruction_data@));
    Ok(())
}

/// The index stored in a counter account's data.
pub open spec fn stored_index(counter_data: Seq<u8>) -> u64 {
    u64_of_le(counter_data)
}

/// The bytes of the account record, marked initialized, that registers the address and
/// label of `payload` under `index`.
pub open spec fn account_entry(payload: Seq<u8>, index: u64) -> Seq<u8> {
    payload.subrange(0, 64) + seq![1u8] + u64_le(index)
}

/// What registering a named account does. In order: the payment and counter-pointer
/// accounts must have the configured addresses; the pointer must decode and be initialized;
/// the counter account must be the one it names, must be owned by the program and must
/// decode, and its index must have a successor; the payload must hold an address and a label; the storage account must be
/// owned by the program, hold at least a record's bytes and have a clear flag byte; the
/// storage account must be able to pay the fee. On success the counter holds the next
/// index, the fee has moved from storage to payment, and the storage data starts with the
/// record stamped with that index.
pub open spec fn account_name_step(
    config: Config,
    program_id: Address,
    payment: AccountView,
    counter_pointer: AccountView,
    counter: AccountView,
    storage: AccountView,
    payload: Seq<u8>,
) -> Result<(AccountView, AccountView, AccountView), RegistryError> {
    let fee = config.registration_fee;
    if payment.key@ != config.payment_address@ {
        Err(RegistryError::InvalidAccountData)
    } else if counter_pointer.key@ != config.counter_pointer_address@ {
        Err(RegistryError::InvalidAccountData)
    } else if !Pointer::decodable(counter_pointer.data) {
        Err(RegistryError::InvalidAccountData)
    } else if counter_pointer.data[POINTER_FLAG_OFFSET as int] != 1 {
        Err(RegistryError::InvalidAccountData)
    } else if counter.key@ != counter_pointer.data.subrange(0, 32) {
        Err(RegistryError::InvalidAccountData)
    } else if counter.owner@ != program_id@ {
        Err(RegistryError::InvalidAccountData)
    } else if !Counter::decodable(counter.data) {
        Err(RegistryError::InvalidAccountData)
    } else if stored_index(counter.data) == u64::MAX {
        Err(RegistryError::ArithmeticOverflow)
    } else if !Instruction::decodable(payload) {
        Err(RegistryError::InvalidInstructionData)
    } else if storage.owner@ != program_id@ {
        Err(RegistryError::InvalidAccountData)
    } else if storage.data.len() < ACCOUNT_RECORD_LEN {
        Err(RegistryError::InvalidAccountData)
    } else if storage.data[ACCOUNT_RECORD_FLAG_OFFSET as int] != 0 {
        Err(RegistryError::InvalidAccountData)
    } else if fee_check(storage.lamports, payment.lamports, fee) is Err {
        Err(fee_check(storage.lamports, payment.lamports, fee)->Err_0)
    } else {
        let index = (stored_index(counter.data) + 1) as u64;
        Ok(
            (
                AccountView { lamports: (payment.lamports + fee) as u64, ..payment },
                AccountView {
                    data: u64_le(index) + counter.data.subrange(8, counter.data.len() as int),
                    ..counter
                },
                AccountView {
                    lamports: (storage.lamports - fee) as u64,
                    data: account_entry(payload, index) + storage.data.subrange(
                        ACCOUNT_RECORD_LEN as int,
                        storage.data.len() as int,
                    ),
                    ..storage
                },
            ),
        )
    }
}

/// Registers the address and label in `instruction_data` under the next index of the
/// counter that `counter_pointer` names, moving the fee from `storage` to `payment`.
/// On failure nothing changes.
pub fn process_account_name(
    config: &Config,
    program_id: &Address,
    payment: &mut Account,
    counter_pointer: &Account,
    counter: &mut Account,
    storage: &mut Account,
    instruction_data: &[u8],
) -> (r: Result<(), RegistryError>)
    ensures
        match account_name_step(
            *config,
            *program_id,
            old(payment)@,
            counter_pointer@,
            old(counter)@,
            old(storage)@,
            instruction_data@,
        ) {
            Ok((p, c, s)) => r is Ok && final(payment)@ == p && final(counter)@ == c
                && final(storage)@ == s,
            Err(e) => r == Err::<(), RegistryError>(e) && final(payment)@ == old(payment)@
                && final(counter)@ == old(counter)@ && final(storage)@ == old(storage)@,
        },
{
    if !same_address(&payment.key, &config.payment_address) {
        return Err(RegistryError::InvalidAccountData);
    }
    if !same_address(&counter_pointer.key, &config.counter_pointer_address) {
        return Err(RegistryError::InvalidAccountData);
    }
    let pointer = match Pointer::unpack_from_slice(counter_pointer.data.as_slice()) {
        Ok(p) => p,
        Err(e) => return Err(e),
    };
    assert(pointer.token_address@ =~= counter_pointer.data@.subrange(0, 32));
    assert(pointer.encoding()[32] == counter_pointer.data@[32]);
    if !pointer.is_initialized {
        return Err(RegistryError::InvalidAccountData);
    }
    if !same_address(&counter.key, &pointer.token_address) {
        return Err(RegistryError::InvalidAccountData);
    }
    if !same_address(&counter.owner, program_id) {
        return Err(RegistryError::InvalidAccountData);
    }
    let current = match Counter::unpack_from_slice(counter.data.as_slice()) {
        Ok(c) => c,
        Err(e) => return Err(e),
    };
    proof {
        lemma_u64_of_le(current.index, counter.data@);
    }
    if current.index == u64::MAX {
        return Err(RegistryError::ArithmeticOverflow);
    }
    let next = Counter { index: current.index + 1 };
    let instruction = match Instruction::unpack_from_slice(instruction_data) {
        Ok(i) => i,
        Err(e) => return Err(e),
    };
    if !same_address(&storage.owner, program_id) {
        return Err(RegistryError::InvalidAccountData);
    }
    if storage.data.len() < ACCOUNT_RECORD_LEN {
        return Err(RegistryError::InvalidAccountData);
    }
    if storage.data[ACCOUNT_RECORD_FLAG_OFFSET] != 0 {
        return Err(RegistryError::InvalidAccountData);
    }
    match check_fee(storage.lamports, payment.lamports, config.registration_fee) {
        Ok(()) => {},
        Err(e) => return Err(e),
    }
    next.pack_into_slice(counter.data.as_mut_slice());
    transfer_fee(storage, payment, config.registration_fee);
    let record = AccountRecord {
        account_address: instruction.account_address,
        name: instruction.name,
        is_initialized: true,
        index: next.index,
    };
    record.pack_into_slice(storage.data.as_mut_slice());
    assert(record.encoding() =~= account_entry(instruction_data@, next.index));
    Ok(())
}

/// Whether `b` is a continuation byte of a UTF-8 sequence.
pub open spec fn continuation(b: u8) -> bool {
    0x80 <= b <= 0xbf
}

/// Whether `bytes` is well-formed UTF-8 text: a sequence of the well-formed byte sequences
/// of the Unicode standard's table of them (chapter 3, "UTF-8"), with no overlong form, no
/// surrogate and nothing above U+10FFFF.
pub open spec fn utf8_text(bytes: Seq<u8>) -> bool
    decreases bytes.len(),
{
    if bytes.len() == 0 {
        true
    } else {
        let b0 = bytes[0];
        let n: int = if b0 <= 0x7f {
            1
        } else if 0xc2 <= b0 <= 0xdf {
            2
        } else if 0xe0 <= b0 <= 0xef {
            3
        } else if 0xf0 <= b0 <= 0xf4 {
            4
        } else {
            0
        };
        let second_ok = if b0 == 0xe0 {
            0xa0 <= bytes[1] <= 0xbf
        } else if b0 == 0xed {
            0x80 <= bytes[1] <= 0x9f
        } else if b0 == 0xf0 {
            0x90 <= bytes[1] <= 0xbf
        } else if b0 == 0xf4 {
            0x80 <= bytes[1] <= 0x8f
        } else {
            continuation(bytes[1])
        };
        &&& n > 0
        &&& bytes.len() >= n
        &&& (n >= 2 ==> second_ok)
        &&& (n >= 3 ==> continuation(bytes[2]))
        &&& (n >= 4 ==> continuation(bytes[3]))
        &&& utf8_text(bytes.subrange(n, bytes.len() as int))
    }
}

/// Relies on `std::str::from_utf8`: it accepts exactly the well-formed UTF-8 byte
/// sequences.
#[verifier::external_body]
fn is_utf8(bytes: &[u8]) -> (r: bool)
    ensures
        r == utf8_text(bytes@),
{
    std::str::from_utf8(bytes).is_ok()
}

/// Offset, inside a token account's data, of the 32 bytes that name the token's minter.
pub const TOKEN_MINTER_OFFSET: usize = 4;

/// Size in bytes of a token label.
pub const TOKEN_NAME_LEN: usize = 32;

/// What registering a token's name does. In order: the payment account must have the
/// configured address; the token account's data must name `minter` as its minter, and
/// `minter` must have signed; the payload must be UTF-8 text; the storage account must be
/// owned by the program, hold at least a register's bytes and start with a zero byte; the
/// payload must be exactly 32 bytes; the storage account must be able to pay the fee. On
/// success the fee has moved from storage to payment and the storage data starts with the
/// token's address and the payload.
pub open spec fn token_name_step(
    config: Config,
    program_id: Address,
    payment: AccountView,
    token: AccountView,
    minter: AccountView,
    storage: AccountView,
    payload: Seq<u8>,
) -> Result<(AccountView, AccountView), RegistryError> {
    let fee = config.registration_fee;
    if payment.key@ != config.payment_address@ {
        Err(RegistryError::InvalidAccountData)
    } else if token.data.len() < TOKEN_MINTER_OFFSET + 32 {
        Err(RegistryError::InvalidAccountData)
    } else if token.data.subrange(TOKEN_MINTER_OFFSET as int, TOKEN_MINTER_OFFSET + 32)
        != minter.key@ {
        Err(RegistryError::InvalidAccountData)
    } else if !minter.is_signer {
        Err(RegistryError::InvalidAccountData)
    } else if !utf8_text(payload) {
        Err(RegistryError::InvalidInstructionData)
    } else if storage.owner@ != program_id@ {
        Err(RegistryError::InvalidAccountData)
    } else if storage.data.len() < REGISTER_LEN {
        Err(RegistryError::InvalidAccountData)
    } else if storage.data[0] != 0 {
        Err(RegistryError::InvalidAccountData)
    } else if payload.len() > TOKEN_NAME_LEN {
        Err(RegistryError::InvalidAccountData)
    } else if payload.len() != TOKEN_NAME_LEN {
        Err(RegistryError::InvalidInstructionData)
    } else if fee_check(storage.lamports, payment.lamports, fee) is Err {
        Err(fee_check(storage.lamports, payment.lamports, fee)->Err_0)
    } else {
        Ok(
            (
                AccountView { lamports: (payment.lamports + fee) as u64, ..payment },
                AccountView {
                    lamports: (storage.lamports - fee) as u64,
                    data: token.key@ + payload + storage.data.subrange(
                        REGISTER_LEN as int,
                        storage.data.len() as int,
                    ),
                    ..storage
                },
            ),
        )
    }
}

/// Registers the payload as the name of `token`, moving the fee from `storage` to
/// `payment`. On failure nothing changes.
pub fn process_token_name(
    config: &Config,
    program_id: &Address,
    payment: &mut Account,
    token: &Account,
    minter: &Account,
    storage: &mut Account,
    instruction_data: &[u8],
) -> (r: Result<(), RegistryError>)
    ensures
        match token_name_step(
            *config,
            *program_id,
            old(payment)@,
            token@,
            minter@,
            old(storage)@,
            instruction_data@,
        ) {
            Ok((p, s)) => r is Ok && final(payment)@ == p && final(storage)@ == s,
            Err(e) => r == Err::<(), RegistryError>(e) && final(payment)@ == old(payment)@
                && final(storage)@ == old(storage)@,
        },
{
    if !same_address(&payment.key, &config.payment_address) {
        return Err(RegistryError::InvalidAccountData);
    }
    if token.data.len() < TOKEN_MINTER_OFFSET + 32 {
        return Err(RegistryError::InvalidAccountData);
    }
    let token_minter = read_address(token.data.as_slice(), TOKEN_MINTER_OFFSET);
    if !same_address(&token_minter, &minter.key) {
        return Err(RegistryError::InvalidAccountData);
    }
    if !minter.is_signer {
        return Err(RegistryError::InvalidAccountData);
    }
    if !is_utf8(instruction_data) {
        return Err(RegistryError::InvalidInstructionData);
    }
    if !same_address(&storage.owner, program_id) {
        return Err(RegistryError::InvalidAccountData);
    }
    if storage.data.len() < REGISTER_LEN {
        return Err(RegistryError::InvalidAccountData);
    }
    if storage.data[0] != 0 {
        return Err(RegistryError::InvalidAccountData);
    }
    if instruction_data.len() > TOKEN_NAME_LEN {
        return Err(RegistryError::InvalidAccountData);
    }
    if instruction_data.len() != TOKEN_NAME_LEN {
        return Err(RegistryError::InvalidInstructionData);
    }
    match check_fee(storage.lamports, payment.lamports, config.registration_fee) {
        Ok(()) => {},
        Err(e) => return Err(e),
    }
    transfer_fee(storage, payment, config.registration_fee);
    let entry = Register {
        token_address: token.key,
        token_name: read_address(instruction_data, 0),
    };
    entry.pack_into_slice(storage.data.as_mut_slice());
    assert(entry.token_name@ =~= instruction_data@);
    Ok(())
}

} // verus!
