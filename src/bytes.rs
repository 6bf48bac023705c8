use vstd::prelude::*;

verus! {

/// A 32-byte account identifier.
pub type Address = [u8; 32];

/// The byte that stores a boolean flag.
pub open spec fn flag_byte(b: bool) -> u8 {
    if b {
        1u8
    } else {
        0u8
    }
}

/// The eight little-endian bytes of `v`.
pub open spec fn u64_le(v: u64) -> Seq<u8> {
    seq![
        v as u8,
        (v >> 8u64) as u8,
        (v >> 16u64) as u8,
        (v >> 24u64) as u8,
        (v >> 32u64) as u8,
        (v >> 40u64) as u8,
        (v >> 48u64) as u8,
        (v >> 56u64) as u8,
    ]
}

/// The `u64` whose little-endian bytes start `s`.
pub open spec fn u64_of_le(s: Seq<u8>) -> u64 {
    (s[0] as u64) | ((s[1] as u64) << 8u64) | ((s[2] as u64) << 16u64) | ((s[3] as u64) << 24u64)
        | ((s[4] as u64) << 32u64) | ((s[5] as u64) << 40u64) | ((s[6] as u64) << 48u64) | ((
    s[7] as u64) << 56u64)
}

/// The value whose eight little-endian bytes start `s` is `u64_of_le(s)`.
pub proof fn lemma_u64_of_le(v: u64, s: Seq<u8>)
    requires
        s.len() >= 8,
        u64_le(v) == s.subrange(0, 8),
    ensures
        v == u64_of_le(s),
{
    let b0 = s[0];
    let b1 = s[1];
    let b2 = s[2];
    let b3 = s[3];
    let b4 = s[4];
    let b5 = s[5];
    let b6 = s[6];
    let b7 = s[7];
    assert(u64_le(v)[0] == b0 && u64_le(v)[1] == b1 && u64_le(v)[2] == b2 && u64_le(v)[3] == b3);
    assert(u64_le(v)[4] == b4 && u64_le(v)[5] == b5 && u64_le(v)[6] == b6 && u64_le(v)[7] == b7);
    assert(v == (b0 as u64) | ((b1 as u64) << 8u64) | ((b2 as u64) << 16u64) | ((b3 as u64)
        << 24u64) | ((b4 as u64) << 32u64) | ((b5 as u64) << 40u64) | ((b6 as u64) << 48u64)
        | ((b7 as u64) << 56u64)) by (bit_vector)
        requires
            v as u8 == b0,
            (v >> 8u64) as u8 == b1,
            (v >> 16u64) as u8 == b2,
            (v >> 24u64) as u8 == b3,
            (v >> 32u64) as u8 == b4,
            (v >> 40u64) as u8 == b5,
            (v >> 48u64) as u8 == b6,
            (v >> 56u64) as u8 == b7,
    ;
}

/// Whether two addresses hold the same bytes.
pub fn same_address(a: &Address, b: &Address) -> (r: bool)
    ensures
        r == (a@ == b@),
{
    let mut i: usize = 0;
    while i < 32
        invariant
            0 <= i <= 32,
            a@.len() == 32,
            b@.len() == 32,
            forall|j: int| 0 <= j < i ==> a@[j] == b@[j],
        decreases 32 - i,
    {
        if a[i] != b[i] {
            return false;
        }
        i = i + 1;
    }
    assert(a@ =~= b@);
    true
}

/// Copies the 32 bytes of `src` that start at `start` into an address.
pub fn read_address(src: &[u8], start: usize) -> (r: Address)
    requires
        start + 32 <= src@.len(),
    ensures
        r@ == src@.subrange(start as int, start + 32),
{
    let n = src.len();
    let mut out: Address = [0u8; 32];
    let mut i: usize = 0;
    while i < 32
        invariant
            0 <= i <= 32,
            n == src@.len(),
            start + 32 <= n,
            out@.len() == 32,
            forall|j: int| 0 <= j < i ==> out@[j] == src@[start + j],
        decreases 32 - i,
    {
        out[i] = src[start + i];
        i = i + 1;
    }
    assert(out@ =~= src@.subrange(start as int, start + 32));
    out
}

/// Writes `bytes` over `dst` from position `start` on, leaving the other bytes as they were.
pub fn write_address(dst: &mut [u8], start: usize, bytes: &Address)
    requires
        start + 32 <= old(dst)@.len(),
    ensures
        final(dst)@ == old(dst)@.subrange(0, start as int) + bytes@ + old(dst)@.subrange(
            start + 32,
            old(dst)@.len() as int,
        ),
{
    let ghost before = dst@;
    let n = dst.len();
    let mut i: usize = 0;
    while i < 32
        invariant
            0 <= i <= 32,
            n == before.len(),
            start + 32 <= n,
            bytes@.len() == 32,
            dst@.len() == before.len(),
            forall|j: int| 0 <= j < start ==> dst@[j] == before[j],
            forall|j: int| 0 <= j < i ==> dst@[start + j] == bytes@[j],
            forall|j: int| start + i <= j < before.len() ==> dst@[j] == before[j],
        decreases 32 - i,
    {
        dst[start + i] = bytes[i];
        i = i + 1;
    }
    assert(dst@ =~= before.subrange(0, start as int) + bytes@ + before.subrange(
        start + 32,
        before.len() as int,
    ));
}

/// Reads the little-endian `u64` stored in `src` from position `start` on.
pub fn read_u64_le(src: &[u8], start: usize) -> (r: u64)
    requires
        start + 8 <= src@.len(),
    ensures
        u64_le(r) == src@.subrange(start as int, start + 8),
{
    let b0 = src[start];
    let b1 = src[start + 1];
    let b2 = src[start + 2];
    let b3 = src[start + 3];
    let b4 = src[start + 4];
    let b5 = src[start + 5];
    let b6 = src[start + 6];
    let b7 = src[start + 7];
    let v: u64 = (b0 as u64) | ((b1 as u64) << 8u64) | ((b2 as u64) << 16u64) | ((b3 as u64)
        << 24u64) | ((b4 as u64) << 32u64) | ((b5 as u64) << 40u64) | ((b6 as u64) << 48u64)
        | ((b7 as u64) << 56u64);
    assert(v as u8 == b0 && (v >> 8u64) as u8 == b1 && (v >> 16u64) as u8 == b2 && (v
        >> 24u64) as u8 == b3 && (v >> 32u64) as u8 == b4 && (v >> 40u64) as u8 == b5 && (v
        >> 48u64) as u8 == b6 && (v >> 56u64) as u8 == b7) by (bit_vector)
        requires
            v == (b0 as u64) | ((b1 as u64) << 8u64) | ((b2 as u64) << 16u64) | ((b3 as u64)
                << 24u64) | ((b4 as u64) << 32u64) | ((b5 as u64) << 40u64) | ((b6 as u64)
                << 48u64) | ((b7 as u64) << 56u64),
    ;
    assert(u64_le(v) =~= src@.subrange(start as int, start + 8));
    v
}

/// Writes the eight little-endian bytes of `v` over `dst` from position `start` on,
/// leaving the other bytes as they were.
pub fn write_u64_le(dst: &mut [u8], start: usize, v: u64)
    requires
        start + 8 <= old(dst)@.len(),
    ensures
        final(dst)@ == old(dst)@.subrange(0, start as int) + u64_le(v) + old(dst)@.subrange(
            start + 8,
            old(dst)@.len() as int,
        ),
{
    let ghost before = dst@;
    dst[start] = v as u8;
    dst[start + 1] = (v >> 8u64) as u8;
    dst[start + 2] = (v >> 16u64) as u8;
    dst[start + 3] = (v >> 24u64) as u8;
    dst[start + 4] = (v >> 32u64) as u8;
    dst[start + 5] = (v >> 40u64) as u8;
    dst[start + 6] = (v >> 48u64) as u8;
    dst[start + 7] = (v >> 56u64) as u8;
    assert(dst@ =~= before.subrange(0, start as int) + u64_le(v) + before.subrange(
        start + 8,
        before.len() as int,
    ));
}

/// Two addresses with the same bytes are the same address.
pub proof fn lemma_address_view_injective(a: Address, b: Address)
    requires
        a@ == b@,
    ensures
        a == b,
{
    broadcast use vstd::array::group_array_axioms;

    assert forall|i: int| 0 <= i < 32 implies a[i] == b[i] by {
        assert(a@[i] == b@[i]);
    }
    assert(a =~= b);
}

/// Eight little-endian bytes name exactly one `u64`.
pub proof fn lemma_u64_le_injective(a: u64, b: u64)
    requires
        u64_le(a) == u64_le(b),
    ensures
        a == b,
{
    assert(u64_le(a)[0] == u64_le(b)[0]);
    assert(u64_le(a)[1] == u64_le(b)[1]);
    assert(u64_le(a)[2] == u64_le(b)[2]);
    assert(u64_le(a)[3] == u64_le(b)[3]);
    assert(u64_le(a)[4] == u64_le(b)[4]);
    assert(u64_le(a)[5] == u64_le(b)[5]);
    assert(u64_le(a)[6] == u64_le(b)[6]);
    assert(u64_le(a)[7] == u64_le(b)[7]);
    assert(a == b) by (bit_vector)
        requires
            a as u8 == b as u8,
            (a >> 8u64) as u8 == (b >> 8u64) as u8,
            (a >> 16u64) as u8 == (b >> 16u64) as u8,
            (a >> 24u64) as u8 == (b >> 24u64) as u8,
            (a >> 32u64) as u8 == (b >> 32u64) as u8,
            (a >> 40u64) as u8 == (b >> 40u64) as u8,
            (a >> 48u64) as u8 == (b >> 48u64) as u8,
            (a >> 56u64) as u8 == (b >> 56u64) as u8,
    ;
}

} // verus!
