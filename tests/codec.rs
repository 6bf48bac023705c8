use std::str::FromStr;

use name_service::config::{Config, COUNTER_POINTER_ADDRESS, PAYMENT_ACCOUNT_ADDRESS, REGISTRATION_FEE};
use name_service::{AccountRecord, Counter, Instruction, Pointer, Register, RegistryError};
use solana_program::pubkey::Pubkey;

#[test]
fn test_struct() {
    let token_address = Pubkey::from_str("4NGtJoZ8wy7mwtzWi8JByPMWbTAQHicHKAfcCbsx1yra").unwrap();
    let token_name: [u8; 32] = *b"some super random token name xxx";
    let data = [token_address.to_bytes(), token_name].concat();
    let register_data = Register { token_address: token_address.to_bytes(), token_name };
    let register_data_from_slice = Register::unpack_from_slice(&data).unwrap();
    assert_eq!(register_data_from_slice, register_data);
    assert_eq!(register_data_from_slice.token_address, token_address.to_bytes());
    assert_eq!(
        std::str::from_utf8(&register_data_from_slice.token_name).unwrap(),
        "some super random token name xxx"
    );
}

#[test]
fn pointer_round_trip_keeps_tail() {
    let p = Pointer { token_address: [0xabu8; 32], is_initialized: true };
    let mut buf = vec![9u8; 35];
    p.pack_into_slice(&mut buf);
    assert_eq!(buf[32], 1);
    assert_eq!(&buf[33..], &[9u8, 9u8]);
    assert_eq!(Pointer::unpack_from_slice(&buf).unwrap(), p);
    let q = Pointer { token_address: [1u8; 32], is_initialized: false };
    q.pack_into_slice(&mut buf);
    assert_eq!(buf[32], 0);
    assert_eq!(Pointer::unpack_from_slice(&buf).unwrap(), q);
    assert!(!q.is_initialized());
}

#[test]
fn pointer_rejects_bad_flag_and_short_buffer() {
    let mut buf = vec![0u8; 33];
    buf[32] = 2;
    assert_eq!(Pointer::unpack_from_slice(&buf), Err(RegistryError::InvalidAccountData));
    assert_eq!(Pointer::unpack_from_slice(&[0u8; 32]), Err(RegistryError::InvalidAccountData));
}

#[test]
fn counter_little_endian_bytes() {
    let c = Counter { index: 0x0102030405060708 };
    let mut buf = vec![0u8; 8];
    c.pack_into_slice(&mut buf);
    assert_eq!(buf, vec![8, 7, 6, 5, 4, 3, 2, 1]);
    assert_eq!(Counter::unpack_from_slice(&buf).unwrap(), c);
    assert_eq!(Counter::unpack_from_slice(&[0u8; 7]), Err(RegistryError::InvalidAccountData));
    assert_eq!(Counter::unpack_from_slice(&[0xffu8; 8]).unwrap().index, u64::MAX);
    assert!(c.is_initialized());
}

#[test]
fn instruction_round_trip() {
    let i = Instruction { account_address: [3u8; 32], name: *b"name that we want to regsiter 12" };
    let mut buf = vec![0u8; 64];
    i.pack_into_slice(&mut buf);
    assert_eq!(&buf[32..], b"name that we want to regsiter 12");
    assert_eq!(Instruction::unpack_from_slice(&buf).unwrap(), i);
    assert_eq!(
        Instruction::unpack_from_slice(&buf[..63]),
        Err(RegistryError::InvalidInstructionData)
    );
    assert!(i.is_initialized());
}

#[test]
fn account_record_round_trip_and_layout() {
    let a = AccountRecord {
        account_address: [2u8; 32],
        name: [4u8; 32],
        is_initialized: true,
        index: 258,
    };
    let mut buf = vec![7u8; 74];
    a.pack_into_slice(&mut buf);
    assert_eq!(buf[64], 1);
    assert_eq!(&buf[65..73], &[2u8, 1, 0, 0, 0, 0, 0, 0]);
    assert_eq!(buf[73], 7);
    assert_eq!(AccountRecord::unpack_from_slice(&buf).unwrap(), a);
    assert!(a.is_initialized());
    buf[64] = 5;
    assert_eq!(AccountRecord::unpack_from_slice(&buf), Err(RegistryError::InvalidAccountData));
    assert_eq!(
        AccountRecord::unpack_from_slice(&[0u8; 72]),
        Err(RegistryError::InvalidAccountData)
    );
}

#[test]
fn register_round_trip_and_short_buffer() {
    let g = Register { token_address: [5u8; 32], token_name: [6u8; 32] };
    let mut buf = vec![0u8; 64];
    g.pack_into_slice(&mut buf);
    assert_eq!(Register::unpack_from_slice(&buf).unwrap(), g);
    assert_eq!(Register::unpack_from_slice(&buf[..63]), Err(RegistryError::InvalidAccountData));
    assert!(g.is_initialized());
}

#[test]
fn config_decodes_base58_addresses() {
    let c = Config::deployed().unwrap();
    assert_eq!(c.payment_address, Pubkey::from_str(PAYMENT_ACCOUNT_ADDRESS).unwrap().to_bytes());
    assert_eq!(
        c.counter_pointer_address,
        Pubkey::from_str(COUNTER_POINTER_ADDRESS).unwrap().to_bytes()
    );
    assert_eq!(c.registration_fee, REGISTRATION_FEE);
    assert_eq!(c.registration_fee, 1_000_000_000);
    let custom = Config::from_base58("11111111111111111111111111111111", COUNTER_POINTER_ADDRESS, 5)
        .unwrap();
    assert_eq!(custom.payment_address, [0u8; 32]);
    assert_eq!(custom.registration_fee, 5);
}

#[test]
fn config_rejects_bad_text() {
    assert_eq!(Config::from_base58("not base58 0OIl", COUNTER_POINTER_ADDRESS, 1), None);
    assert_eq!(Config::from_base58(PAYMENT_ACCOUNT_ADDRESS, "abc", 1), None);
}
