//! Fixed-width keys of the change-set tables, and their byte encodings.
//!
//! Keys are compared by the store as bytes, so they are written big-endian
//! and uncompressed.
use crate::primitives::{Address, B256, BlockNumber};
use vstd::prelude::*;

verus! {

/// A storage slot key.
pub type StorageKey = B256;

/// A key that could not be decoded.
#[derive(Debug, Clone, Copy, PartialEq, Eq, Structural)]
pub enum DatabaseError {
    Decode,
}

/// Byte `i` (0 is the most significant) of `n` written big-endian.
pub open spec fn be_byte_u64(n: u64, i: int) -> u8 {
    ((n >> ((7 - i) * 8) as u64) & 0xff) as u8
}

/// Byte `i` (0 is the most significant) of `n` written big-endian.
pub open spec fn be_byte_u128(n: u128, i: int) -> u8 {
    ((n >> ((15 - i) * 8) as u128) & 0xff) as u8
}

/// The number that the bytes `s` spell big-endian, in 64 bits.
pub open spec fn be_u64(s: Seq<u8>) -> u64
    decreases s.len(),
{
    if s.len() == 0 {
        0
    } else {
        ((be_u64(s.drop_last()) << 8u64) | s.last() as u64)
    }
}

/// The number that the bytes `s` spell big-endian, in 128 bits.
pub open spec fn be_u128(s: Seq<u8>) -> u128
    decreases s.len(),
{
    if s.len() == 0 {
        0
    } else {
        ((be_u128(s.drop_last()) << 8u128) | s.last() as u128)
    }
}

/// The 32 bytes of a hash, high half first.
pub open spec fn spec_b256_bytes(h: B256) -> Seq<u8> {
    Seq::new(16, |i: int| be_byte_u128(h.hi, i)) + Seq::new(16, |i: int| be_byte_u128(h.lo, i))
}

/// The encoding of a block number and an address: eight big-endian bytes of
/// the number, then the twenty bytes of the address.
pub open spec fn spec_encode_block_number_address(n: BlockNumber, a: Address) -> Seq<u8> {
    Seq::new(8, |i: int| be_byte_u64(n, i)) + a.0@
}

/// The encoding of an address and a storage key: the twenty bytes of the
/// address, then the thirty-two bytes of the key.
pub open spec fn spec_encode_address_storage_key(a: Address, k: StorageKey) -> Seq<u8> {
    a.0@ + spec_b256_bytes(k)
}

fn push_be_u64(out: &mut Vec<u8>, n: u64)
    ensures
        final(out)@ == old(out)@ + Seq::new(8, |i: int| be_byte_u64(n, i)),
{
    let ghost start = out@;
    let mut i: u64 = 0;
    while i < 8
        invariant
            i <= 8,
            out@ =~= start + Seq::new(i as nat, |j: int| be_byte_u64(n, j)),
        decreases 8 - i,
    {
        out.push(((n >> ((7 - i) * 8)) & 0xff) as u8);
        i += 1;
    }
}

fn push_be_u128(out: &mut Vec<u8>, n: u128)
    ensures
        final(out)@ == old(out)@ + Seq::new(16, |i: int| be_byte_u128(n, i)),
{
    let ghost start = out@;
    let mut i: u32 = 0;
    while i < 16
        invariant
            i <= 16,
            out@ =~= start + Seq::new(i as nat, |j: int| be_byte_u128(n, j)),
        decreases 16 - i,
    {
        out.push(((n >> ((15 - i) * 8)) & 0xff) as u8);
        i += 1;
    }
}

fn push_address(out: &mut Vec<u8>, a: &Address)
    ensures
        final(out)@ == old(out)@ + a.0@,
{
    let ghost start = out@;
    let mut i: usize = 0;
    while i < 20
        invariant
            i <= 20,
            out@ =~= start + a.0@.subrange(0, i as int),
        decreases 20 - i,
    {
        out.push(a.0[i]);
        i += 1;
    }
    assert(a.0@.subrange(0, 20) =~= a.0@);
}

fn read_be_u64(s: &[u8], start: usize) -> (r: u64)
    requires
        start <= 64,
        start + 8 <= s@.len(),
    ensures
        r == be_u64(s@.subrange(start as int, start + 8)),
{
    let mut n: u64 = 0;
    let mut i: usize = start;
    while i < start + 8
        invariant
            start <= i <= start + 8,
            start <= 64,
            start + 8 <= s@.len(),
            n == be_u64(s@.subrange(start as int, i as int)),
        decreases start + 8 - i,
    {
        assert(s@.subrange(start as int, i + 1).drop_last() =~= s@.subrange(start as int, i as int));
        n = (n << 8u64) | s[i] as u64;
        i += 1;
    }
    n
}

fn read_be_u128(s: &[u8], start: usize) -> (r: u128)
    requires
        start <= 64,
        start + 16 <= s@.len(),
    ensures
        r == be_u128(s@.subrange(start as int, start + 16)),
{
    let mut n: u128 = 0;
    let mut i: usize = start;
    while i < start + 16
        invariant
            start <= i <= start + 16,
            start <= 64,
            start + 16 <= s@.len(),
            n == be_u128(s@.subrange(start as int, i as int)),
        decreases start + 16 - i,
    {
        assert(s@.subrange(start as int, i + 1).drop_last() =~= s@.subrange(start as int, i as int));
        n = (n << 8u128) | s[i] as u128;
        i += 1;
    }
    n
}

fn read_address(s: &[u8], start: usize) -> (r: Address)
    requires
        start <= 64,
        start + 20 <= s@.len(),
    ensures
        r.0@ == s@.subrange(start as int, start + 20),
{
    let mut bytes: [u8; 20] = [0u8; 20];
    let mut i: usize = 0;
    while i < 20
        invariant
            i <= 20,
            start <= 64,
            start + 20 <= s@.len(),
            forall|j: int| 0 <= j < i ==> bytes@[j] == s@[start + j],
        decreases 20 - i,
    {
        bytes.set(i, s[start + i]);
        i += 1;
    }
    assert(bytes@ =~= s@.subrange(start as int, start + 20));
    Address(bytes)
}

/// A block number followed by an address: the key of the storage
/// change-set table.
#[derive(Debug, Clone, Copy, PartialEq, Eq, Hash, PartialOrd, Ord, Default)]
pub struct BlockNumberAddress(pub (BlockNumber, Address));

impl BlockNumberAddress {
    /// The block number.
    pub fn block_number(&self) -> (r: BlockNumber)
        ensures
            r == self.0.0,
    {
        self.0.0
    }

    /// The address.
    pub fn address(&self) -> (r: Address)
        ensures
            r == self.0.1,
    {
        self.0.1
    }

    /// Consumes the key and returns the block number and the address.
    pub fn take(self) -> (r: (BlockNumber, Address))
        ensures
            r == self.0,
    {
        self.0
    }

    /// The bounds of the keys of the blocks `start..=end`, with the zero
    /// address: the first key is included, the second is not.
    pub fn range(start: BlockNumber, end: BlockNumber) -> (r: (BlockNumberAddress, BlockNumberAddress))
        requires
            end < u64::MAX,
        ensures
            r.0.0.0 == start,
            r.1.0.0 == end + 1,
            r.0.0.1.0@ == Seq::new(20, |_i: int| 0u8),
            r.1.0.1.0@ == Seq::new(20, |_i: int| 0u8),
    {
        let zero = Address([0u8; 20]);
        assert(zero.0@ =~= Seq::new(20, |_i: int| 0u8));
        (BlockNumberAddress((start, zero)), BlockNumberAddress((end + 1, zero)))
    }

    /// The twenty-eight bytes of the key.
    pub fn encode(self) -> (r: Vec<u8>)
        ensures
            r@ == spec_encode_block_number_address(self.0.0, self.0.1),
    {
        let mut out: Vec<u8> = Vec::new();
        push_be_u64(&mut out, self.0.0);
        push_address(&mut out, &self.0.1);
        assert(out@ =~= spec_encode_block_number_address(self.0.0, self.0.1));
        out
    }

    /// Reads a key from its twenty-eight bytes; any other length is an
    /// error.
    pub fn decode(value: &[u8]) -> (r: Result<BlockNumberAddress, DatabaseError>)
        ensures
            value@.len() == 28 <==> r is Ok,
            r is Ok ==> r->Ok_0.0.0 == be_u64(value@.subrange(0, 8)) && r->Ok_0.0.1.0@
                == value@.subrange(8, 28),
            r is Err ==> r->Err_0 == DatabaseError::Decode,
    {
        if value.len() != 28 {
            return Err(DatabaseError::Decode);
        }
        let num = read_be_u64(value, 0);
        let address = read_address(value, 8);
        Ok(BlockNumberAddress((num, address)))
    }
}

impl From<(BlockNumber, Address)> for BlockNumberAddress {
    fn from(tpl: (BlockNumber, Address)) -> (r: Self) {
        BlockNumberAddress(tpl)
    }
}

impl vstd::std_specs::convert::FromSpecImpl<(BlockNumber, Address)> for BlockNumberAddress {
    open spec fn obeys_from_spec() -> bool {
        true
    }

    open spec fn from_spec(tpl: (BlockNumber, Address)) -> BlockNumberAddress {
        BlockNumberAddress(tpl)
    }
}

/// An address followed by a storage key.
#[derive(Debug, Clone, Copy, PartialEq, Eq, Hash, PartialOrd, Ord)]
pub struct AddressStorageKey(pub (Address, StorageKey));

impl AddressStorageKey {
    /// The fifty-two bytes of the key.
    pub fn encode(self) -> (r: Vec<u8>)
        ensures
            r@ == spec_encode_address_storage_key(self.0.0, self.0.1),
    {
        let mut out: Vec<u8> = Vec::new();
        push_address(&mut out, &self.0.0);
        push_be_u128(&mut out, self.0.1.hi);
        push_be_u128(&mut out, self.0.1.lo);
        assert(out@ =~= spec_encode_address_storage_key(self.0.0, self.0.1));
        out
    }

    /// Reads a key from its fifty-two bytes; any other length is an error.
    pub fn decode(value: &[u8]) -> (r: Result<AddressStorageKey, DatabaseError>)
        ensures
            value@.len() == 52 <==> r is Ok,
            r is Ok ==> r->Ok_0.0.0.0@ == value@.subrange(0, 20) && r->Ok_0.0.1 == (B256 {
                hi: be_u128(value@.subrange(20, 36)),
                lo: be_u128(value@.subrange(36, 52)),
            }),
            r is Err ==> r->Err_0 == DatabaseError::Decode,
    {
        if value.len() != 52 {
            return Err(DatabaseError::Decode);
        }
        let address = read_address(value, 0);
        let hi = read_be_u128(value, 20);
        let lo = read_be_u128(value, 36);
        Ok(AddressStorageKey((address, B256 { hi, lo })))
    }
}

proof fn lemma_be_u64_step(s: Seq<u8>, k: int)
    requires
        0 < k <= s.len(),
    ensures
        be_u64(s.subrange(0, k)) == ((be_u64(s.subrange(0, k - 1)) << 8u64) | s[k - 1] as u64),
{
    assert(s.subrange(0, k).drop_last() =~= s.subrange(0, k - 1));
}

/// Reading back the eight bytes that a block number is written as gives
/// the number.
pub proof fn lemma_be_u64_round_trip(n: u64)
    ensures
        be_u64(Seq::new(8, |i: int| be_byte_u64(n, i))) == n,
{
    let s = Seq::new(8, |i: int| be_byte_u64(n, i));
    assert(s.subrange(0, 0) =~= Seq::<u8>::empty());
    lemma_be_u64_step(s, 1);
    lemma_be_u64_step(s, 2);
    lemma_be_u64_step(s, 3);
    lemma_be_u64_step(s, 4);
    lemma_be_u64_step(s, 5);
    lemma_be_u64_step(s, 6);
    lemma_be_u64_step(s, 7);
    lemma_be_u64_step(s, 8);
    assert(s.subrange(0, 8) =~= s);
    assert(forall|x: u64| #![auto] ((x & 0xff) as u8) as u64 == x & 0xff) by (bit_vector);
    let a1 = be_u64(s.subrange(0, 1));
    let a2 = be_u64(s.subrange(0, 2));
    let a3 = be_u64(s.subrange(0, 3));
    let a4 = be_u64(s.subrange(0, 4));
    let a5 = be_u64(s.subrange(0, 5));
    let a6 = be_u64(s.subrange(0, 6));
    let a7 = be_u64(s.subrange(0, 7));
    let a8 = be_u64(s.subrange(0, 8));
    assert(a1 == (0u64 << 8u64) | ((n >> 56u64) & 0xff));
    assert(a2 == (a1 << 8u64) | ((n >> 48u64) & 0xff));
    assert(a3 == (a2 << 8u64) | ((n >> 40u64) & 0xff));
    assert(a4 == (a3 << 8u64) | ((n >> 32u64) & 0xff));
    assert(a5 == (a4 << 8u64) | ((n >> 24u64) & 0xff));
    assert(a6 == (a5 << 8u64) | ((n >> 16u64) & 0xff));
    assert(a7 == (a6 << 8u64) | ((n >> 8u64) & 0xff));
    assert(a8 == (a7 << 8u64) | ((n >> 0u64) & 0xff));
    assert(a8 == n) by (bit_vector)
        requires
            a1 == (0u64 << 8u64) | ((n >> 56u64) & 0xff),
            a2 == (a1 << 8u64) | ((n >> 48u64) & 0xff),
            a3 == (a2 << 8u64) | ((n >> 40u64) & 0xff),
            a4 == (a3 << 8u64) | ((n >> 32u64) & 0xff),
            a5 == (a4 << 8u64) | ((n >> 24u64) & 0xff),
            a6 == (a5 << 8u64) | ((n >> 16u64) & 0xff),
            a7 == (a6 << 8u64) | ((n >> 8u64) & 0xff),
            a8 == (a7 << 8u64) | ((n >> 0u64) & 0xff),
    ;
}

/// Decoding the bytes that `encode` wrote gives the key back.
pub proof fn lemma_block_number_address_round_trip(k: BlockNumberAddress)
    ensures
        spec_encode_block_number_address(k.0.0, k.0.1).len() == 28,
        be_u64(spec_encode_block_number_address(k.0.0, k.0.1).subrange(0, 8)) == k.0.0,
        spec_encode_block_number_address(k.0.0, k.0.1).subrange(8, 28) == k.0.1.0@,
{
    let e = spec_encode_block_number_address(k.0.0, k.0.1);
    assert(e.subrange(0, 8) =~= Seq::new(8, |i: int| be_byte_u64(k.0.0, i)));
    assert(e.subrange(8, 28) =~= k.0.1.0@);
    lemma_be_u64_round_trip(k.0.0);
}

proof fn lemma_be_u128_step(s: Seq<u8>, k: int)
    requires
        0 < k <= s.len(),
    ensures
        be_u128(s.subrange(0, k)) == ((be_u128(s.subrange(0, k - 1)) << 8u128) | s[k - 1] as u128),
{
    assert(s.subrange(0, k).drop_last() =~= s.subrange(0, k - 1));
}

/// Reading back the sixteen bytes that a 128-bit half is written as gives
/// the half.
pub proof fn lemma_be_u128_round_trip(n: u128)
    ensures
        be_u128(Seq::new(16, |i: int| be_byte_u128(n, i))) == n,
{
    let s = Seq::new(16, |i: int| be_byte_u128(n, i));
    assert(s.subrange(0, 0) =~= Seq::<u8>::empty());
    lemma_be_u128_step(s, 1);
    lemma_be_u128_step(s, 2);
    lemma_be_u128_step(s, 3);
    lemma_be_u128_step(s, 4);
    lemma_be_u128_step(s, 5);
    lemma_be_u128_step(s, 6);
    lemma_be_u128_step(s, 7);
    lemma_be_u128_step(s, 8);
    lemma_be_u128_step(s, 9);
    lemma_be_u128_step(s, 10);
    lemma_be_u128_step(s, 11);
    lemma_be_u128_step(s, 12);
    lemma_be_u128_step(s, 13);
    lemma_be_u128_step(s, 14);
    lemma_be_u128_step(s, 15);
    lemma_be_u128_step(s, 16);
    assert(s.subrange(0, 16) =~= s);
    assert(forall|x: u128| #![auto] ((x & 0xff) as u8) as u128 == x & 0xff) by (bit_vector);
    let a1 = be_u128(s.subrange(0, 1));
    let a2 = be_u128(s.subrange(0, 2));
    let a3 = be_u128(s.subrange(0, 3));
    let a4 = be_u128(s.subrange(0, 4));
    let a5 = be_u128(s.subrange(0, 5));
    let a6 = be_u128(s.subrange(0, 6));
    let a7 = be_u128(s.subrange(0, 7));
    let a8 = be_u128(s.subrange(0, 8));
    let a9 = be_u128(s.subrange(0, 9));
    let a10 = be_u128(s.subrange(0, 10));
    let a11 = be_u128(s.subrange(0, 11));
    let a12 = be_u128(s.subrange(0, 12));
    let a13 = be_u128(s.subrange(0, 13));
    let a14 = be_u128(s.subrange(0, 14));
    let a15 = be_u128(s.subrange(0, 15));
    let a16 = be_u128(s.subrange(0, 16));
    assert(a1 == (0u128 << 8u128) | ((n >> 120u128) & 0xff));
    assert(a2 == (a1 << 8u128) | ((n >> 112u128) & 0xff));
    assert(a3 == (a2 << 8u128) | ((n >> 104u128) & 0xff));
    assert(a4 == (a3 << 8u128) | ((n >> 96u128) & 0xff));
    assert(a5 == (a4 << 8u128) | ((n >> 88u128) & 0xff));
    assert(a6 == (a5 << 8u128) | ((n >> 80u128) & 0xff));
    assert(a7 == (a6 << 8u128) | ((n >> 72u128) & 0xff));
    assert(a8 == (a7 << 8u128) | ((n >> 64u128) & 0xff));
    assert(a9 == (a8 << 8u128) | ((n >> 56u128) & 0xff));
    assert(a10 == (a9 << 8u128) | ((n >> 48u128) & 0xff));
    assert(a11 == (a10 << 8u128) | ((n >> 40u128) & 0xff));
    assert(a12 == (a11 << 8u128) | ((n >> 32u128) & 0xff));
    assert(a13 == (a12 << 8u128) | ((n >> 24u128) & 0xff));
    assert(a14 == (a13 << 8u128) | ((n >> 16u128) & 0xff));
    assert(a15 == (a14 << 8u128) | ((n >> 8u128) & 0xff));
    assert(a16 == (a15 << 8u128) | ((n >> 0u128) & 0xff));
    assert(a16 == n) by (bit_vector)
        requires
            a1 == (0u128 << 8u128) | ((n >> 120u128) & 0xff),
            a2 == (a1 << 8u128) | ((n >> 112u128) & 0xff),
            a3 == (a2 << 8u128) | ((n >> 104u128) & 0xff),
            a4 == (a3 << 8u128) | ((n >> 96u128) & 0xff),
            a5 == (a4 << 8u128) | ((n >> 88u128) & 0xff),
            a6 == (a5 << 8u128) | ((n >> 80u128) & 0xff),
            a7 == (a6 << 8u128) | ((n >> 72u128) & 0xff),
            a8 == (a7 << 8u128) | ((n >> 64u128) & 0xff),
            a9 == (a8 << 8u128) | ((n >> 56u128) & 0xff),
            a10 == (a9 << 8u128) | ((n >> 48u128) & 0xff),
            a11 == (a10 << 8u128) | ((n >> 40u128) & 0xff),
            a12 == (a11 << 8u128) | ((n >> 32u128) & 0xff),
            a13 == (a12 << 8u128) | ((n >> 24u128) & 0xff),
            a14 == (a13 << 8u128) | ((n >> 16u128) & 0xff),
            a15 == (a14 << 8u128) | ((n >> 8u128) & 0xff),
            a16 == (a15 << 8u128) | ((n >> 0u128) & 0xff),
    ;
}

/// Decoding the bytes that `encode` wrote gives the key back.
pub proof fn lemma_address_storage_key_round_trip(k: AddressStorageKey)
    ensures
        spec_encode_address_storage_key(k.0.0, k.0.1).len() == 52,
        spec_encode_address_storage_key(k.0.0, k.0.1).subrange(0, 20) == k.0.0.0@,
        be_u128(spec_encode_address_storage_key(k.0.0, k.0.1).subrange(20, 36)) == k.0.1.hi,
        be_u128(spec_encode_address_storage_key(k.0.0, k.0.1).subrange(36, 52)) == k.0.1.lo,
{
    let e = spec_encode_address_storage_key(k.0.0, k.0.1);
    assert(e.subrange(0, 20) =~= k.0.0.0@);
    assert(e.subrange(20, 36) =~= Seq::new(16, |i: int| be_byte_u128(k.0.1.hi, i)));
    assert(e.subrange(36, 52) =~= Seq::new(16, |i: int| be_byte_u128(k.0.1.lo, i)));
    lemma_be_u128_round_trip(k.0.1.hi);
    lemma_be_u128_round_trip(k.0.1.lo);
}

} // verus!
