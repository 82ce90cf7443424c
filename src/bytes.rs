//! Bounds-checked little-endian reads from byte slices.

use vstd::prelude::*;
use crate::error::DecodeError;
use vstd::slice::slice_subrange;

verus! {

/// The 16-bit little-endian value at `i`.
pub open spec fn le16(s: Seq<u8>, i: int) -> u16 {
    (s[i] as u16) | ((s[i + 1] as u16) << 8u16)
}

/// The 32-bit little-endian value at `i`.
pub open spec fn le32(s: Seq<u8>, i: int) -> u32 {
    (s[i] as u32) | ((s[i + 1] as u32) << 8u32) | ((s[i + 2] as u32) << 16u32) | ((s[i + 3]
        as u32) << 24u32)
}

/// The 64-bit little-endian value at `i`.
pub open spec fn le64(s: Seq<u8>, i: int) -> u64 {
    (le32(s, i) as u64) | ((le32(s, i + 4) as u64) << 32u64)
}

pub fn read_u8(x: &[u8], i: usize) -> (r: u8)
    requires
        i < x@.len(),
    ensures
        r == x@[i as int],
{
    x[i]
}

pub fn read_u16(x: &[u8], i: usize) -> (r: u16)
    requires
        i + 2 <= x@.len(),
    ensures
        r == le16(x@, i as int),
{
    (x[i] as u16) | ((x[i + 1] as u16) << 8u16)
}

pub fn read_u32(x: &[u8], i: usize) -> (r: u32)
    requires
        i + 4 <= x@.len(),
    ensures
        r == le32(x@, i as int),
{
    (x[i] as u32) | ((x[i + 1] as u32) << 8u32) | ((x[i + 2] as u32) << 16u32) | ((x[i + 3]
        as u32) << 24u32)
}

pub fn read_u64(x: &[u8], i: usize) -> (r: u64)
    requires
        i + 8 <= x@.len(),
    ensures
        r == le64(x@, i as int),
{
    let n = x.len();
    assert(i + 8 <= n);
    (read_u32(x, i) as u64) | ((read_u32(x, i + 4) as u64) << 32u64)
}

/// The `N` bytes that start at `i`.
pub fn read_array<const N: usize>(x: &[u8], i: usize) -> (r: [u8; N])
    requires
        i + N <= x@.len(),
    ensures
        r@ == x@.subrange(i as int, i + N),
{
    let n = x.len();
    let mut a: [u8; N] = [0u8; N];
    let mut k: usize = 0;
    while k < N
        invariant
            k <= N,
            i + N <= x@.len(),
            n == x@.len(),
            a@.len() == N,
            forall|j: int| 0 <= j < k ==> a@[j] == x@[i + j],
        decreases N - k,
    {
        a[k] = x[i + k];
        k = k + 1;
    }
    assert(a@ =~= x@.subrange(i as int, i + N));
    a
}

/// A fixed-layout record that can be decoded from the start of a byte slice.
pub trait FromBytes: Sized {
    /// The number of bytes the record occupies.
    spec fn layout_size() -> nat;

    /// The record's fields are those found in `s` at their fixed offsets.
    spec fn decoded_from(self, s: Seq<u8>) -> bool;

    /// What the record's validation says of the bytes `s`: `None` when they pass.
    spec fn rejection(s: Seq<u8>) -> Option<DecodeError>;

    fn size() -> (r: usize)
        ensures
            r == Self::layout_size(),
    ;

    /// Decodes the record from the front of `x`, then validates it.
    fn from_bytes(x: &[u8]) -> (r: Result<Self, DecodeError>)
        ensures
            x@.len() < Self::layout_size() ==> r == Err::<Self, DecodeError>(
                DecodeError::TruncatedInput,
            ),
            x@.len() >= Self::layout_size() ==> match r {
                Ok(v) => Self::rejection(x@) is None && v.decoded_from(x@),
                Err(e) => Self::rejection(x@) == Some(e),
            },
    ;
}

} // verus!

verus! {

/// `v` holds `count` records, the `i`-th decoded from the `i`-th
/// record-sized chunk of `s`.
pub open spec fn entries_decoded<E: FromBytes>(v: Seq<E>, s: Seq<u8>, count: nat) -> bool {
    &&& v.len() == count
    &&& forall|i: int|
        0 <= i < count ==> (#[trigger] v[i]).decoded_from(
            s.subrange(i * E::layout_size(), i * E::layout_size() + E::layout_size()),
        )
}

/// Decodes `count` consecutive records from the front of `x`; bytes past
/// them are left alone.
pub fn read_entries<E: FromBytes>(x: &[u8], count: usize) -> (r: Result<Vec<E>, DecodeError>)
    requires
        E::layout_size() > 0,
        forall|s: Seq<u8>| #[trigger] E::rejection(s) is None,
    ensures
        r is Ok <==> count * E::layout_size() <= x@.len(),
        r is Err ==> r == Err::<Vec<E>, DecodeError>(DecodeError::TruncatedInput),
        r matches Ok(v) ==> entries_decoded(v@, x@, count as nat),
{
    let sz = E::size();
    let n = x.len();
    let total = count.checked_mul(sz);
    if total.is_none() {
        assert(count * sz > usize::MAX) by {
            assert(total is None);
        }
        return Err(DecodeError::TruncatedInput);
    }
    let total = total.unwrap();
    if total > n {
        return Err(DecodeError::TruncatedInput);
    }
    let mut v: Vec<E> = Vec::new();
    let mut i: usize = 0;
    while i < count
        invariant
            i <= count,
            sz == E::layout_size(),
            sz > 0,
            total == count * sz,
            total <= n,
            n == x@.len(),
            forall|s: Seq<u8>| #[trigger] E::rejection(s) is None,
            v@.len() == i,
            forall|j: int|
                0 <= j < i ==> #[trigger] v@[j].decoded_from(
                    x@.subrange(j * sz, j * sz + sz),
                ),
        decreases count - i,
    {
        assert(i * sz + sz <= count * sz) by (nonlinear_arith)
            requires
                i < count,
        ;
        let start = i * sz;
        let chunk = slice_subrange(x, start, start + sz);
        let e = E::from_bytes(chunk);
        match e {
            Ok(e) => {
                v.push(e);
            },
            Err(_) => {
                assert(E::rejection(chunk@) is None);
                assert(false);
                return Err(DecodeError::TruncatedInput);
            },
        }
        i = i + 1;
    }
    Ok(v)
}

} // verus!
