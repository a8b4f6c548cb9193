//! The postcard wire format, as far as this network's messages use it:
//! variable-length integers, length-prefixed byte strings, and UUIDs.
//!
//! The functions here hand single values to the `postcard` crate. How a message
//! is put together from such values is decided in [`crate::wire`].

use vstd::arithmetic::power2::*;
use vstd::prelude::*;

verus! {

/// The error of the `postcard` crate, carried through without looking inside.
#[verifier::external_type_specification]
#[verifier::external_body]
pub struct ExPostcardError(postcard::Error);

/// A number as postcard writes it: base 128, least significant digit first,
/// with the top bit set on every digit but the last.
pub open spec fn varint(n: nat) -> Seq<u8>
    decreases n,
{
    if n < 128 {
        seq![n as u8]
    } else {
        seq![(n % 128 + 128) as u8] + varint(n / 128)
    }
}

/// Reads a number of at most `bits` bits from the front of `b`, and gives it
/// back with the bytes that follow. Digits beyond the needed ones may be zero;
/// a number that does not end, or does not fit, is refused.
pub open spec fn take_varint(b: Seq<u8>, bits: nat) -> Option<(nat, Seq<u8>)>
    decreases b.len(),
{
    if b.len() == 0 || bits == 0 {
        None
    } else if b[0] < 128 {
        if bits >= 7 || b[0] < pow2(bits) {
            Some((b[0] as nat, b.skip(1)))
        } else {
            None
        }
    } else {
        let left: nat = if bits > 7 {
            (bits - 7) as nat
        } else {
            0
        };
        match take_varint(b.skip(1), left) {
            Some((n, rest)) => Some(((b[0] - 128 + 128 * n) as nat, rest)),
            None => None,
        }
    }
}

/// A byte string as postcard writes it: its length, then its bytes.
pub open spec fn prefixed(s: Seq<u8>) -> Seq<u8> {
    varint(s.len()) + s
}

/// Reads a length-prefixed byte string from the front of `b`, and gives it back
/// with the bytes that follow. The length is a number of the machine's word size.
pub open spec fn take_prefixed(b: Seq<u8>) -> Option<(Seq<u8>, Seq<u8>)> {
    match take_varint(b, usize::BITS as nat) {
        Some((n, rest)) => if n <= rest.len() {
            Some((rest.take(n as int), rest.skip(n as int)))
        } else {
            None
        },
        None => None,
    }
}

/// Reads a UUID, which is a length-prefixed string of sixteen bytes.
pub open spec fn take_uuid_bytes(b: Seq<u8>) -> Option<(Seq<u8>, Seq<u8>)> {
    match take_prefixed(b) {
        Some((id, rest)) => if id.len() == 16 {
            Some((id, rest))
        } else {
            None
        },
        None => None,
    }
}

/// `postcard::to_stdvec` on a `u32`: the number's [`varint`]. The call writes
/// into a growing vector and never fails.
#[verifier::external_body]
pub(crate) fn write_u32(n: u32) -> (r: Result<Vec<u8>, postcard::Error>)
    ensures
        r is Ok,
        r->Ok_0@ == varint(n as nat),
{
    postcard::to_stdvec(&n)
}

/// `postcard::to_stdvec` on a byte slice: its length and its bytes. The call
/// writes into a growing vector and never fails.
#[verifier::external_body]
pub(crate) fn write_bytes(s: &[u8]) -> (r: Result<Vec<u8>, postcard::Error>)
    ensures
        r is Ok,
        r->Ok_0@ == prefixed(s@),
{
    postcard::to_stdvec(s)
}

/// `postcard::to_stdvec` on a `uuid::Uuid`, whose own serialisation hands over
/// its sixteen bytes as one byte string. The call writes into a growing vector
/// and never fails.
#[verifier::external_body]
pub(crate) fn write_uuid(id: &[u8; 16]) -> (r: Result<Vec<u8>, postcard::Error>)
    ensures
        r is Ok,
        r->Ok_0@ == prefixed(id@),
{
    postcard::to_stdvec(&uuid::Uuid::from_bytes(*id))
}

/// `postcard::take_from_bytes` for a `u32`: the number at the front of `b` and
/// the bytes after it, or an error where [`take_varint`] has no answer.
#[verifier::external_body]
pub(crate) fn read_u32<'a>(b: &'a [u8]) -> (r: Result<(u32, &'a [u8]), postcard::Error>)
    ensures
        match r {
            Ok((n, rest)) => take_varint(b@, 32) == Some((n as nat, rest@)),
            Err(_) => take_varint(b@, 32) is None,
        },
{
    postcard::take_from_bytes::<u32>(b)
}

/// `postcard::take_from_bytes` for a `Vec<u8>`: the byte string at the front of
/// `b` and the bytes after it, or an error where [`take_prefixed`] has no answer.
#[verifier::external_body]
pub(crate) fn read_bytes<'a>(b: &'a [u8]) -> (r: Result<(Vec<u8>, &'a [u8]), postcard::Error>)
    ensures
        match r {
            Ok((s, rest)) => take_prefixed(b@) == Some((s@, rest@)),
            Err(_) => take_prefixed(b@) is None,
        },
{
    postcard::take_from_bytes::<Vec<u8>>(b)
}

/// `postcard::take_from_bytes` for a `uuid::Uuid`, which asks for one byte
/// string and refuses any length but sixteen.
#[verifier::external_body]
pub(crate) fn read_uuid<'a>(b: &'a [u8]) -> (r: Result<([u8; 16], &'a [u8]), postcard::Error>)
    ensures
        match r {
            Ok((id, rest)) => take_uuid_bytes(b@) == Some((id@, rest@)),
            Err(_) => take_uuid_bytes(b@) is None,
        },
{
    match postcard::take_from_bytes::<uuid::Uuid>(b) {
        Ok((id, rest)) => Ok((id.into_bytes(), rest)),
        Err(e) => Err(e),
    }
}

/// A number that fits in `bits` bits is read back from what was written,
/// whatever follows it.
pub proof fn lemma_varint_read_back(n: nat, bits: nat, rest: Seq<u8>)
    requires
        bits > 0,
        n < pow2(bits),
    ensures
        take_varint(varint(n) + rest, bits) == Some((n, rest)),
    decreases n,
{
    let b = varint(n) + rest;
    if n < 128 {
        assert(b.skip(1) =~= rest);
        assert(b[0] == n);
    } else {
        if bits <= 7 {
            lemma_pow2_increases(bits, 7);
            lemma2_to64();
            assert(false);
        }
        let left = (bits - 7) as nat;
        assert(n / 128 < pow2(left)) by {
            lemma_pow2_adds(7, left);
            lemma2_to64();
            assert(pow2(bits) == 128 * pow2(left));
            assert(n < 128 * pow2(left));
        }
        lemma_varint_read_back(n / 128, left, rest);
        assert(b[0] == n % 128 + 128);
        assert(b.skip(1) =~= varint(n / 128) + rest);
    }
}

proof fn lemma_pow2_increases(a: nat, b: nat)
    requires
        a <= b,
    ensures
        pow2(a) <= pow2(b),
{
    if a < b {
        lemma_pow2_strictly_increases(a, b);
    }
}

/// A byte string that fits in memory is read back from what was written,
/// whatever follows it.
pub proof fn lemma_prefixed_read_back(s: Seq<u8>, rest: Seq<u8>)
    requires
        s.len() <= usize::MAX,
    ensures
        take_prefixed(prefixed(s) + rest) == Some((s, rest)),
{
    vstd::layout::unsigned_int_max_values();
    lemma_varint_read_back(s.len(), usize::BITS as nat, s + rest);
    assert(prefixed(s) + rest =~= varint(s.len()) + (s + rest));
    assert((s + rest).take(s.len() as int) =~= s);
    assert((s + rest).skip(s.len() as int) =~= rest);
}

/// Where a written number and what follows it are cut: within the number nothing
/// is read, and behind it the number is read with what is left.
pub proof fn lemma_varint_cut(n: nat, bits: nat, rest: Seq<u8>, k: int)
    requires
        bits > 0,
        n < pow2(bits),
        0 <= k <= varint(n).len() + rest.len(),
    ensures
        take_varint((varint(n) + rest).take(k), bits) == if k < varint(n).len() {
            None
        } else {
            Some((n, rest.take(k - varint(n).len())))
        },
{
    if k < varint(n).len() {
        assert((varint(n) + rest).take(k) =~= varint(n).take(k));
        lemma_varint_prefix(n, bits, k);
    } else {
        let left = rest.take(k - varint(n).len());
        assert((varint(n) + rest).take(k) =~= varint(n) + left);
        lemma_varint_read_back(n, bits, left);
    }
}

/// Nothing is read from the first digits of a number alone.
proof fn lemma_varint_prefix(n: nat, bits: nat, k: int)
    requires
        0 <= k < varint(n).len(),
    ensures
        take_varint(varint(n).take(k), bits) is None,
    decreases n,
{
    if k > 0 {
        let left: nat = if bits > 7 {
            (bits - 7) as nat
        } else {
            0
        };
        assert(varint(n).take(k).skip(1) =~= varint(n / 128).take(k - 1));
        lemma_varint_prefix(n / 128, left, k - 1);
    }
}

/// Where a written byte string and what follows it are cut: within the string
/// nothing is read, and behind it the string is read with what is left.
pub proof fn lemma_prefixed_cut(s: Seq<u8>, rest: Seq<u8>, k: int)
    requires
        s.len() <= usize::MAX,
        0 <= k <= prefixed(s).len() + rest.len(),
    ensures
        take_prefixed((prefixed(s) + rest).take(k)) == if k < prefixed(s).len() {
            None
        } else {
            Some((s, rest.take(k - prefixed(s).len())))
        },
{
    vstd::layout::unsigned_int_max_values();
    assert(prefixed(s) + rest =~= varint(s.len()) + (s + rest));
    lemma_varint_cut(s.len(), usize::BITS as nat, s + rest, k);
    if k >= prefixed(s).len() {
        let left = rest.take(k - prefixed(s).len());
        let after = (s + rest).take(k - varint(s.len()).len());
        assert(after =~= s + left);
        assert(after.take(s.len() as int) =~= s);
        assert(after.skip(s.len() as int) =~= left);
    }
}

} // verus!
