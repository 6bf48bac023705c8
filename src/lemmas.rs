use vstd::prelude::*;

use crate::account::AccountView;
use crate::bytes::{lemma_u64_of_le, u64_le, u64_of_le, Address};
use crate::config::Config;
use crate::error::RegistryError;
use crate::records::{
    AccountRecord, Counter, Instruction, Pointer, Register, ACCOUNT_RECORD_LEN, COUNTER_LEN,
    INSTRUCTION_LEN, POINTER_LEN, REGISTER_LEN,
};
use crate::registry::{
    account_entry, account_name_step, proxy_pointer_step, stored_index, token_name_step,
};

verus! {

/// The `u64` read from the start of `u64_le(v) + rest` is `v`.
proof fn lemma_read_back_u64(v: u64, rest: Seq<u8>)
    ensures
        u64_of_le(u64_le(v) + rest) == v,
{
    let s = u64_le(v) + rest;
    assert(u64_le(v) =~= s.subrange(0, 8));
    lemma_u64_of_le(v, s);
}

/// The index stamped into the account record that a storage account's data starts with.
pub open spec fn record_index(storage_data: Seq<u8>) -> u64 {
    u64_of_le(storage_data.subrange(65, storage_data.len() as int))
}

/// A storage account that a named-account registration has filled refuses the same
/// registration a second time, with the accounts as the first one left them, as long as the
/// counter can advance again; the refusal is a failed state check.
pub proof fn lemma_account_name_write_once(
    config: Config,
    program_id: Address,
    payment: AccountView,
    counter_pointer: AccountView,
    counter: AccountView,
    storage: AccountView,
    payload: Seq<u8>,
)
    requires
        account_name_step(config, program_id, payment, counter_pointer, counter, storage, payload) is Ok,
        stored_index(counter.data) + 1 < u64::MAX,
    ensures
        ({
            let (payment_after, counter_after, storage_after) = account_name_step(
                config,
                program_id,
                payment,
                counter_pointer,
                counter,
                storage,
                payload,
            )->Ok_0;
            account_name_step(config, program_id, payment_after, counter_pointer, counter_after, storage_after, payload) == Err::<
                (AccountView, AccountView, AccountView),
                RegistryError,
            >(RegistryError::InvalidAccountData)
        }),
{
    let (payment_after, counter_after, storage_after) = account_name_step(
        config,
        program_id,
        payment,
        counter_pointer,
        counter,
        storage,
        payload,
    )->Ok_0;
    let index = (stored_index(counter.data) + 1) as u64;
    lemma_read_back_u64(index, counter.data.subrange(8, counter.data.len() as int));
    assert(storage_after.data[64] == 1);
}

/// A storage account that a pointer registration has filled refuses a second one.
pub proof fn lemma_proxy_pointer_write_once(
    program_id: Address,
    storage: AccountView,
    payload: Seq<u8>,
)
    requires
        proxy_pointer_step(program_id, storage, payload) is Ok,
    ensures
        proxy_pointer_step(program_id, proxy_pointer_step(program_id, storage, payload)->Ok_0, payload)
            == Err::<AccountView, RegistryError>(RegistryError::InvalidAccountData),
{
    let storage_after = proxy_pointer_step(program_id, storage, payload)->Ok_0;
    assert(storage_after.data[32] == 1);
}

/// A storage account that a token-name registration has filled refuses a second one with
/// the accounts as the first one left them, with a failed state check, where the token's address does not start with
/// a zero byte (the first byte of the storage data is what marks it used).
pub proof fn lemma_token_name_write_once(
    config: Config,
    program_id: Address,
    payment: AccountView,
    token: AccountView,
    minter: AccountView,
    storage: AccountView,
    payload: Seq<u8>,
)
    requires
        token_name_step(config, program_id, payment, token, minter, storage, payload) is Ok,
        token.key@[0] != 0,
    ensures
        ({
            let (payment_after, storage_after) = token_name_step(
                config,
                program_id,
                payment,
                token,
                minter,
                storage,
                payload,
            )->Ok_0;
            token_name_step(config, program_id, payment_after, token, minter, storage_after, payload)
                == Err::<(AccountView, AccountView), RegistryError>(RegistryError::InvalidAccountData)
        }),
{
    let (payment_after, storage_after) = token_name_step(
        config,
        program_id,
        payment,
        token,
        minter,
        storage,
        payload,
    )->Ok_0;
    assert(storage_after.data[0] == token.key@[0]);
}

/// Named-account registrations made one after another against the same payment, pointer
/// and counter accounts, the i-th into `requests[i].0` with payload `requests[i].1`: the
/// counter they leave and the index stamped into each record, or `None` where one failed.
pub open spec fn account_name_run(
    config: Config,
    program_id: Address,
    payment: AccountView,
    counter_pointer: AccountView,
    counter: AccountView,
    requests: Seq<(AccountView, Seq<u8>)>,
) -> Option<(AccountView, Seq<u64>)>
    decreases requests.len(),
{
    if requests.len() == 0 {
        Some((counter, Seq::empty()))
    } else {
        match account_name_step(
            config,
            program_id,
            payment,
            counter_pointer,
            counter,
            requests[0].0,
            requests[0].1,
        ) {
            Ok((payment_after, counter_after, storage_after)) => match account_name_run(
                config,
                program_id,
                payment_after,
                counter_pointer,
                counter_after,
                requests.drop_first(),
            ) {
                Some((c, indices)) => Some((c, seq![record_index(storage_after.data)] + indices)),
                None => None,
            },
            Err(_) => None,
        }
    }
}

/// Registrations that all succeed against one counter stamp the indices that follow its
/// stored index, one each, in order: from a counter at zero, N registrations stamp exactly
/// 1, 2, ..., N, with no repeat and no gap, and leave the counter at N.
pub proof fn lemma_account_name_indices_sequential(
    config: Config,
    program_id: Address,
    payment: AccountView,
    counter_pointer: AccountView,
    counter: AccountView,
    requests: Seq<(AccountView, Seq<u8>)>,
)
    requires
        account_name_run(config, program_id, payment, counter_pointer, counter, requests) is Some,
    ensures
        ({
            let (c, indices) = account_name_run(
                config,
                program_id,
                payment,
                counter_pointer,
                counter,
                requests,
            )->Some_0;
            &&& indices.len() == requests.len()
            &&& forall|i: int|
                0 <= i < indices.len() ==> indices[i] == stored_index(counter.data) + i + 1
            &&& stored_index(c.data) == stored_index(counter.data) + requests.len()
        }),
    decreases requests.len(),
{
    if requests.len() > 0 {
        let (payment_after, counter_after, storage_after) = account_name_step(
            config,
            program_id,
            payment,
            counter_pointer,
            counter,
            requests[0].0,
            requests[0].1,
        )->Ok_0;
        let index = (stored_index(counter.data) + 1) as u64;
        lemma_read_back_u64(index, counter.data.subrange(8, counter.data.len() as int));
        assert(storage_after.data.subrange(65, storage_after.data.len() as int) =~= u64_le(index) + storage_after.data.subrange(
            73,
            storage_after.data.len() as int,
        ));
        lemma_read_back_u64(index, storage_after.data.subrange(73, storage_after.data.len() as int));
        lemma_account_name_indices_sequential(
            config,
            program_id,
            payment_after,
            counter_pointer,
            counter_after,
            requests.drop_first(),
        );
    }
}

/// A successful named-account registration moves exactly the fee from the storage account
/// to the payment account, and in the same step commits the record stamped with the
/// counter's new index.
pub proof fn lemma_account_name_fee_conserved(
    config: Config,
    program_id: Address,
    payment: AccountView,
    counter_pointer: AccountView,
    counter: AccountView,
    storage: AccountView,
    payload: Seq<u8>,
)
    requires
        account_name_step(config, program_id, payment, counter_pointer, counter, storage, payload) is Ok,
    ensures
        ({
            let (payment_after, counter_after, storage_after) = account_name_step(
                config,
                program_id,
                payment,
                counter_pointer,
                counter,
                storage,
                payload,
            )->Ok_0;
            &&& payment_after.lamports == payment.lamports + config.registration_fee
            &&& storage_after.lamports == storage.lamports - config.registration_fee
            &&& storage_after.data.subrange(0, ACCOUNT_RECORD_LEN as int) == account_entry(
                payload,
                stored_index(counter_after.data),
            )
        }),
{
    let (payment_after, counter_after, storage_after) = account_name_step(
        config,
        program_id,
        payment,
        counter_pointer,
        counter,
        storage,
        payload,
    )->Ok_0;
    let index = (stored_index(counter.data) + 1) as u64;
    lemma_read_back_u64(index, counter.data.subrange(8, counter.data.len() as int));
    assert(storage_after.data.subrange(0, ACCOUNT_RECORD_LEN as int) =~= account_entry(payload, index));
}

/// A successful token-name registration moves exactly the fee from the storage account to
/// the payment account, and in the same step stores the token's address and label.
pub proof fn lemma_token_name_fee_conserved(
    config: Config,
    program_id: Address,
    payment: AccountView,
    token: AccountView,
    minter: AccountView,
    storage: AccountView,
    payload: Seq<u8>,
)
    requires
        token_name_step(config, program_id, payment, token, minter, storage, payload) is Ok,
    ensures
        ({
            let (payment_after, storage_after) = token_name_step(
                config,
                program_id,
                payment,
                token,
                minter,
                storage,
                payload,
            )->Ok_0;
            &&& payment_after.lamports == payment.lamports + config.registration_fee
            &&& storage_after.lamports == storage.lamports - config.registration_fee
            &&& storage_after.data.subrange(0, REGISTER_LEN as int) == token.key@ + payload
        }),
{
    let (payment_after, storage_after) = token_name_step(
        config,
        program_id,
        payment,
        token,
        minter,
        storage,
        payload,
    )->Ok_0;
    assert(storage_after.data.subrange(0, REGISTER_LEN as int) =~= token.key@ + payload);
}

/// A buffer one byte shorter than a record never decodes as that record.
pub proof fn lemma_short_buffer_not_decodable(s: Seq<u8>)
    ensures
        s.len() == POINTER_LEN - 1 ==> !Pointer::decodable(s),
        s.len() == COUNTER_LEN - 1 ==> !Counter::decodable(s),
        s.len() == INSTRUCTION_LEN - 1 ==> !Instruction::decodable(s),
        s.len() == ACCOUNT_RECORD_LEN - 1 ==> !AccountRecord::decodable(s),
        s.len() == REGISTER_LEN - 1 ==> !Register::decodable(s),
{
}

/// A storage account one byte shorter than the record it should receive refuses every
/// registration, in each of the three flows.
pub proof fn lemma_short_storage_refused(
    config: Config,
    program_id: Address,
    payment: AccountView,
    counter_pointer: AccountView,
    counter: AccountView,
    token: AccountView,
    minter: AccountView,
    storage: AccountView,
    payload: Seq<u8>,
)
    ensures
        storage.data.len() == ACCOUNT_RECORD_LEN - 1 ==> account_name_step(
            config,
            program_id,
            payment,
            counter_pointer,
            counter,
            storage,
            payload,
        ) is Err,
        storage.data.len() == POINTER_LEN - 1 ==> proxy_pointer_step(program_id, storage, payload) is Err,
        storage.data.len() == REGISTER_LEN - 1 ==> token_name_step(
            config,
            program_id,
            payment,
            token,
            minter,
            storage,
            payload,
        ) is Err,
{
}

} // verus!
