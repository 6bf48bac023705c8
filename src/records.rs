use vstd::prelude::*;

use crate::bytes::{
    flag_byte, lemma_address_view_injective, lemma_u64_le_injective, read_address, read_u64_le, u64_le, write_address,
    write_u64_le, Address,
};
use crate::error::RegistryError;

verus! {

broadcast use vstd::array::group_array_axioms;

/// Size in bytes of an encoded [`Pointer`].
pub const POINTER_LEN: usize = 33;

/// Offset of the flag byte inside an encoded [`Pointer`].
pub const POINTER_FLAG_OFFSET: usize = 32;

/// Size in bytes of an encoded [`Counter`].
pub const COUNTER_LEN: usize = 8;

/// Size in bytes of an encoded [`Instruction`].
pub const INSTRUCTION_LEN: usize = 64;

/// Size in bytes of an encoded [`AccountRecord`].
pub const ACCOUNT_RECORD_LEN: usize = 73;

/// Offset of the flag byte inside an encoded [`AccountRecord`].
pub const ACCOUNT_RECORD_FLAG_OFFSET: usize = 64;

/// Size in bytes of an encoded [`Register`].
pub const REGISTER_LEN: usize = 64;

/// Decodes the flag byte `b`: `0` is false, `1` is true, anything else is malformed.
fn read_flag(b: u8) -> (r: Result<bool, RegistryError>)
    ensures
        match r {
            Ok(v) => b <= 1 && flag_byte(v) == b,
            Err(e) => b > 1 && e == RegistryError::InvalidAccountData,
        },
{
    if b == 0 {
        Ok(false)
    } else if b == 1 {
        Ok(true)
    } else {
        Err(RegistryError::InvalidAccountData)
    }
}

fn write_flag(v: bool) -> (r: u8)
    ensures
        r == flag_byte(v),
{
    if v {
        1
    } else {
        0
    }
}

/// Names the account that holds some mutable state, such as the counter.
#[derive(Clone, Copy, Debug, Default, PartialEq, Eq)]
pub struct Pointer {
    pub token_address: Address,
    pub is_initialized: bool,
}

impl Pointer {
    /// The 33 bytes that encode this pointer: the address, then the flag byte.
    pub open spec fn encoding(self) -> Seq<u8> {
        self.token_address@ + seq![flag_byte(self.is_initialized)]
    }

    /// Whether `s` starts with a well-formed encoded pointer.
    pub open spec fn decodable(s: Seq<u8>) -> bool {
        s.len() >= POINTER_LEN && s[32] <= 1
    }

    pub fn is_initialized(&self) -> (r: bool)
        ensures
            r == self.is_initialized,
    {
        self.is_initialized
    }

    /// Decodes the pointer stored at the start of `src`.
    pub fn unpack_from_slice(src: &[u8]) -> (r: Result<Pointer, RegistryError>)
        ensures
            match r {
                Ok(p) => Pointer::decodable(src@) && p.encoding() == src@.subrange(
                    0,
                    POINTER_LEN as int,
                ),
                Err(e) => !Pointer::decodable(src@) && e == RegistryError::InvalidAccountData,
            },
    {
        if src.len() < POINTER_LEN {
            return Err(RegistryError::InvalidAccountData);
        }
        let is_initialized = match read_flag(src[POINTER_FLAG_OFFSET]) {
            Ok(v) => v,
            Err(e) => return Err(e),
        };
        let token_address = read_address(src, 0);
        let p = Pointer { token_address, is_initialized };
        assert(p.encoding() =~= src@.subrange(0, POINTER_LEN as int));
        Ok(p)
    }

    /// Encodes this pointer over the first 33 bytes of `dst`; the rest of `dst` is kept.
    pub fn pack_into_slice(&self, dst: &mut [u8])
        requires
            old(dst)@.len() >= POINTER_LEN,
        ensures
            final(dst)@ == self.encoding() + old(dst)@.subrange(
                POINTER_LEN as int,
                old(dst)@.len() as int,
            ),
    {
        let ghost before = dst@;
        write_address(dst, 0, &self.token_address);
        dst[POINTER_FLAG_OFFSET] = write_flag(self.is_initialized);
        assert(dst@ =~= self.encoding() + before.subrange(POINTER_LEN as int, before.len() as int));
    }
}

/// The sequential index that the next registration takes.
#[derive(Clone, Copy, Debug, Default, PartialEq, Eq, Structural)]
pub struct Counter {
    pub index: u64,
}

impl Counter {
    /// The eight little-endian bytes of the index.
    pub open spec fn encoding(self) -> Seq<u8> {
        u64_le(self.index)
    }

    /// Whether `s` starts with an encoded counter.
    pub open spec fn decodable(s: Seq<u8>) -> bool {
        s.len() >= COUNTER_LEN
    }

    pub fn is_initialized(&self) -> (r: bool)
        ensures
            r,
    {
        true
    }

    /// Decodes the counter stored at the start of `src`.
    pub fn unpack_from_slice(src: &[u8]) -> (r: Result<Counter, RegistryError>)
        ensures
            match r {
                Ok(c) => Counter::decodable(src@) && c.encoding() == src@.subrange(
                    0,
                    COUNTER_LEN as int,
                ),
                Err(e) => !Counter::decodable(src@) && e == RegistryError::InvalidAccountData,
            },
    {
        if src.len() < COUNTER_LEN {
            return Err(RegistryError::InvalidAccountData);
        }
        Ok(Counter { index: read_u64_le(src, 0) })
    }

    /// Encodes this counter over the first 8 bytes of `dst`; the rest of `dst` is kept.
    pub fn pack_into_slice(&self, dst: &mut [u8])
        requires
            old(dst)@.len() >= COUNTER_LEN,
        ensures
            final(dst)@ == self.encoding() + old(dst)@.subrange(
                COUNTER_LEN as int,
                old(dst)@.len() as int,
            ),
    {
        let ghost before = dst@;
        write_u64_le(dst, 0, self.index);
        assert(dst@ =~= self.encoding() + before.subrange(COUNTER_LEN as int, before.len() as int));
    }
}

/// A registration request: the address to register and its 32-byte label.
#[derive(Clone, Copy, Debug, Default, PartialEq, Eq)]
pub struct Instruction {
    pub account_address: Address,
    pub name: [u8; 32],
}

impl Instruction {
    /// The 64 bytes that encode this request: the address, then the label.
    pub open spec fn encoding(self) -> Seq<u8> {
        self.account_address@ + self.name@
    }

    /// Whether `s` starts with an encoded request.
    pub open spec fn decodable(s: Seq<u8>) -> bool {
        s.len() >= INSTRUCTION_LEN
    }

    pub fn is_initialized(&self) -> (r: bool)
        ensures
            r,
    {
        true
    }

    /// Decodes the request stored at the start of `src`; a short payload is malformed
    /// instruction data.
    pub fn unpack_from_slice(src: &[u8]) -> (r: Result<Instruction, RegistryError>)
        ensures
            match r {
                Ok(i) => Instruction::decodable(src@) && i.encoding() == src@.subrange(
                    0,
                    INSTRUCTION_LEN as int,
                ),
                Err(e) => !Instruction::decodable(src@) && e
                    == RegistryError::InvalidInstructionData,
            },
    {
        if src.len() < INSTRUCTION_LEN {
            return Err(RegistryError::InvalidInstructionData);
        }
        let account_address = read_address(src, 0);
        let name = read_address(src, 32);
        let i = Instruction { account_address, name };
        assert(i.encoding() =~= src@.subrange(0, INSTRUCTION_LEN as int));
        Ok(i)
    }

    /// Encodes this request over the first 64 bytes of `dst`; the rest of `dst` is kept.
    pub fn pack_into_slice(&self, dst: &mut [u8])
        requires
            old(dst)@.len() >= INSTRUCTION_LEN,
        ensures
            final(dst)@ == self.encoding() + old(dst)@.subrange(
                INSTRUCTION_LEN as int,
                old(dst)@.len() as int,
            ),
    {
        let ghost before = dst@;
        write_address(dst, 0, &self.account_address);
        write_address(dst, 32, &self.name);
        assert(dst@ =~= self.encoding() + before.subrange(
            INSTRUCTION_LEN as int,
            before.len() as int,
        ));
    }
}

/// The committed registry entry: address, label, flag and the index taken from the counter.
#[derive(Clone, Copy, Debug, Default, PartialEq, Eq)]
pub struct AccountRecord {
    pub account_address: Address,
    pub name: [u8; 32],
    pub is_initialized: bool,
    pub index: u64,
}

impl AccountRecord {
    /// The 73 bytes that encode this entry: address, label, flag byte, little-endian index.
    pub open spec fn encoding(self) -> Seq<u8> {
        self.account_address@ + self.name@ + seq![flag_byte(self.is_initialized)] + u64_le(
            self.index,
        )
    }

    /// Whether `s` starts with a well-formed encoded entry.
    pub open spec fn decodable(s: Seq<u8>) -> bool {
        s.len() >= ACCOUNT_RECORD_LEN && s[64] <= 1
    }

    pub fn is_initialized(&self) -> (r: bool)
        ensures
            r == self.is_initialized,
    {
        self.is_initialized
    }

    /// Decodes the entry stored at the start of `src`.
    pub fn unpack_from_slice(src: &[u8]) -> (r: Result<AccountRecord, RegistryError>)
        ensures
            match r {
                Ok(a) => AccountRecord::decodable(src@) && a.encoding() == src@.subrange(
                    0,
                    ACCOUNT_RECORD_LEN as int,
                ),
                Err(e) => !AccountRecord::decodable(src@) && e
                    == RegistryError::InvalidAccountData,
            },
    {
        if src.len() < ACCOUNT_RECORD_LEN {
            return Err(RegistryError::InvalidAccountData);
        }
        let is_initialized = match read_flag(src[ACCOUNT_RECORD_FLAG_OFFSET]) {
            Ok(v) => v,
            Err(e) => return Err(e),
        };
        let account_address = read_address(src, 0);
        let name = read_address(src, 32);
        let index = read_u64_le(src, 65);
        let a = AccountRecord { account_address, name, is_initialized, index };
        assert(a.encoding() =~= src@.subrange(0, ACCOUNT_RECORD_LEN as int));
        Ok(a)
    }

    /// Encodes this entry over the first 73 bytes of `dst`; the rest of `dst` is kept.
    pub fn pack_into_slice(&self, dst: &mut [u8])
        requires
            old(dst)@.len() >= ACCOUNT_RECORD_LEN,
        ensures
            final(dst)@ == self.encoding() + old(dst)@.subrange(
                ACCOUNT_RECORD_LEN as int,
                old(dst)@.len() as int,
            ),
    {
        let ghost before = dst@;
        write_address(dst, 0, &self.account_address);
        write_address(dst, 32, &self.name);
        dst[ACCOUNT_RECORD_FLAG_OFFSET] = write_flag(self.is_initialized);
        write_u64_le(dst, 65, self.index);
        assert(dst@ =~= self.encoding() + before.subrange(
            ACCOUNT_RECORD_LEN as int,
            before.len() as int,
        ));
    }
}

/// A token's registered name: the token's address and its 32-byte label.
#[derive(Clone, Copy, Debug, Default, PartialEq, Eq)]
pub struct Register {
    pub token_address: Address,
    pub token_name: [u8; 32],
}

impl Register {
    /// The 64 bytes that encode this entry: the address, then the label.
    pub open spec fn encoding(self) -> Seq<u8> {
        self.token_address@ + self.token_name@
    }

    /// Whether `s` starts with an encoded entry.
    pub open spec fn decodable(s: Seq<u8>) -> bool {
        s.len() >= REGISTER_LEN
    }

    pub fn is_initialized(&self) -> (r: bool)
        ensures
            r,
    {
        true
    }

    /// Decodes the entry stored at the start of `src`.
    pub fn unpack_from_slice(src: &[u8]) -> (r: Result<Register, RegistryError>)
        ensures
            match r {
                Ok(g) => Register::decodable(src@) && g.encoding() == src@.subrange(
                    0,
                    REGISTER_LEN as int,
                ),
                Err(e) => !Register::decodable(src@) && e == RegistryError::InvalidAccountData,
            },
    {
        if src.len() < REGISTER_LEN {
            return Err(RegistryError::InvalidAccountData);
        }
        let token_address = read_address(src, 0);
        let token_name = read_address(src, 32);
        let g = Register { token_address, token_name };
        assert(g.encoding() =~= src@.subrange(0, REGISTER_LEN as int));
        Ok(g)
    }

    /// Encodes this entry over the first 64 bytes of `dst`; the rest of `dst` is kept.
    pub fn pack_into_slice(&self, dst: &mut [u8])
        requires
            old(dst)@.len() >= REGISTER_LEN,
        ensures
            final(dst)@ == self.encoding() + old(dst)@.subrange(
                REGISTER_LEN as int,
                old(dst)@.len() as int,
            ),
    {
        let ghost before = dst@;
        write_address(dst, 0, &self.token_address);
        write_address(dst, 32, &self.token_name);
        assert(dst@ =~= self.encoding() + before.subrange(REGISTER_LEN as int, before.len() as int));
    }
}

/// The first 32 bytes and the next 32 bytes of `a + b`, for two 32-byte sequences.
proof fn lemma_split_pair(a: Seq<u8>, b: Seq<u8>, c: Seq<u8>, d: Seq<u8>)
    requires
        a.len() == 32,
        b.len() == 32,
        c.len() == 32,
        d.len() == 32,
        a + b == c + d,
    ensures
        a == c,
        b == d,
{
    assert(a =~= (a + b).subrange(0, 32));
    assert(c =~= (c + d).subrange(0, 32));
    assert(b =~= (a + b).subrange(32, 64));
    assert(d =~= (c + d).subrange(32, 64));
}

/// Decoding the bytes that `Pointer::pack_into_slice` writes gives back the same pointer,
/// whatever bytes follow it.
pub proof fn lemma_pointer_round_trip(p: Pointer, q: Pointer, rest: Seq<u8>)
    ensures
        Pointer::decodable(p.encoding() + rest),
        q.encoding() == (p.encoding() + rest).subrange(0, POINTER_LEN as int) ==> q == p,
{
    let s = p.encoding() + rest;
    assert(s[32] == flag_byte(p.is_initialized));
    if q.encoding() == s.subrange(0, POINTER_LEN as int) {
        assert(s.subrange(0, POINTER_LEN as int) =~= p.encoding());
        assert(q.token_address@ =~= q.encoding().subrange(0, 32));
        assert(p.token_address@ =~= p.encoding().subrange(0, 32));
        lemma_address_view_injective(q.token_address, p.token_address);
        assert(q.encoding()[32] == p.encoding()[32]);
    }
}

/// Decoding the bytes that `Counter::pack_into_slice` writes gives back the same counter,
/// whatever bytes follow it.
pub proof fn lemma_counter_round_trip(c: Counter, d: Counter, rest: Seq<u8>)
    ensures
        Counter::decodable(c.encoding() + rest),
        d.encoding() == (c.encoding() + rest).subrange(0, COUNTER_LEN as int) ==> d == c,
{
    let s = c.encoding() + rest;
    if d.encoding() == s.subrange(0, COUNTER_LEN as int) {
        assert(s.subrange(0, COUNTER_LEN as int) =~= c.encoding());
        lemma_u64_le_injective(d.index, c.index);
    }
}

/// Decoding the bytes that `Instruction::pack_into_slice` writes gives back the same
/// request, whatever bytes follow it.
pub proof fn lemma_instruction_round_trip(i: Instruction, j: Instruction, rest: Seq<u8>)
    ensures
        Instruction::decodable(i.encoding() + rest),
        j.encoding() == (i.encoding() + rest).subrange(0, INSTRUCTION_LEN as int) ==> j == i,
{
    let s = i.encoding() + rest;
    if j.encoding() == s.subrange(0, INSTRUCTION_LEN as int) {
        assert(s.subrange(0, INSTRUCTION_LEN as int) =~= i.encoding());
        lemma_split_pair(j.account_address@, j.name@, i.account_address@, i.name@);
        lemma_address_view_injective(j.account_address, i.account_address);
        lemma_address_view_injective(j.name, i.name);
    }
}

/// Decoding the bytes that `AccountRecord::pack_into_slice` writes gives back the same
/// entry, whatever bytes follow it.
pub proof fn lemma_account_record_round_trip(a: AccountRecord, b: AccountRecord, rest: Seq<u8>)
    ensures
        AccountRecord::decodable(a.encoding() + rest),
        b.encoding() == (a.encoding() + rest).subrange(0, ACCOUNT_RECORD_LEN as int) ==> b == a,
{
    let s = a.encoding() + rest;
    assert(s[64] == flag_byte(a.is_initialized));
    if b.encoding() == s.subrange(0, ACCOUNT_RECORD_LEN as int) {
        assert(s.subrange(0, ACCOUNT_RECORD_LEN as int) =~= a.encoding());
        let ea = a.encoding();
        let eb = b.encoding();
        assert(ea.subrange(0, 64) =~= a.account_address@ + a.name@);
        assert(eb.subrange(0, 64) =~= b.account_address@ + b.name@);
        lemma_split_pair(b.account_address@, b.name@, a.account_address@, a.name@);
        lemma_address_view_injective(b.account_address, a.account_address);
        lemma_address_view_injective(b.name, a.name);
        assert(ea[64] == eb[64]);
        assert(ea.subrange(65, 73) =~= u64_le(a.index));
        assert(eb.subrange(65, 73) =~= u64_le(b.index));
        lemma_u64_le_injective(b.index, a.index);
    }
}

/// Decoding the bytes that `Register::pack_into_slice` writes gives back the same entry,
/// whatever bytes follow it.
pub proof fn lemma_register_round_trip(g: Register, h: Register, rest: Seq<u8>)
    ensures
        Register::decodable(g.encoding() + rest),
        h.encoding() == (g.encoding() + rest).subrange(0, REGISTER_LEN as int) ==> h == g,
{
    let s = g.encoding() + rest;
    if h.encoding() == s.subrange(0, REGISTER_LEN as int) {
        assert(s.subrange(0, REGISTER_LEN as int) =~= g.encoding());
        lemma_split_pair(h.token_address@, h.token_name@, g.token_address@, g.token_name@);
        lemma_address_view_injective(h.token_address, g.token_address);
        lemma_address_view_injective(h.token_name, g.token_name);
    }
}

} // verus!
