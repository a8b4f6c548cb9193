//! Byte strings: comparison, concatenation, and big-endian numbers.

use vstd::prelude::*;

verus! {

/// The number that `s` spells in base 256, most significant byte first.
pub open spec fn be_value(s: Seq<u8>) -> nat
    decreases s.len(),
{
    if s.len() == 0 {
        0
    } else {
        be_value(s.drop_last()) * 256 + s.last() as nat
    }
}

/// 256 to the power `n`.
pub open spec fn pow256(n: nat) -> nat
    decreases n,
{
    if n == 0 {
        1
    } else {
        256 * pow256((n - 1) as nat)
    }
}

/// A big-endian number of `n` bytes is below `256^n`.
pub proof fn lemma_be_value_bound(s: Seq<u8>)
    ensures
        be_value(s) < pow256(s.len()),
    decreases s.len(),
{
    if s.len() > 0 {
        lemma_be_value_bound(s.drop_last());
    }
}

/// Two byte strings of one length that spell the same number are the same.
pub proof fn lemma_be_value_injective(a: Seq<u8>, b: Seq<u8>)
    requires
        a.len() == b.len(),
        be_value(a) == be_value(b),
    ensures
        a == b,
    decreases a.len(),
{
    if a.len() > 0 {
        lemma_be_value_injective(a.drop_last(), b.drop_last());
        assert(a =~= a.drop_last().push(a.last()));
        assert(b =~= b.drop_last().push(b.last()));
    } else {
        assert(a =~= b);
    }
}

/// Every number below `256^(n+1)` bounds its `n`-byte prefix.
proof fn lemma_be_value_prefix(s: Seq<u8>, n: int)
    requires
        0 <= n <= s.len(),
    ensures
        be_value(s.take(n)) < pow256(n as nat),
        n < s.len() ==> be_value(s.take(n + 1)) == be_value(s.take(n)) * 256 + s[n] as nat,
{
    lemma_be_value_bound(s.take(n));
    if n < s.len() {
        assert(s.take(n + 1).drop_last() =~= s.take(n));
    }
}

/// Whether two byte slices hold the same bytes.
pub fn same_bytes(a: &[u8], b: &[u8]) -> (r: bool)
    ensures
        r == (a@ == b@),
{
    if a.len() != b.len() {
        return false;
    }
    let mut i: usize = 0;
    while i < a.len()
        invariant
            i <= a.len(),
            a.len() == b.len(),
            forall|j: int| 0 <= j < i ==> a[j] == b[j],
        decreases a.len() - i,
    {
        if a[i] != b[i] {
            return false;
        }
        i += 1;
    }
    assert(a@ =~= b@);
    true
}

/// Appends `tail` to `out`.
pub fn append(out: &mut Vec<u8>, tail: &[u8])
    ensures
        final(out)@ == old(out)@ + tail@,
{
    out.extend_from_slice(tail);
    assert(out@ =~= old(out)@ + tail@);
}

/// The bytes of a slice as an array of its length.
pub fn to_array<const N: usize>(s: &[u8]) -> (r: [u8; N])
    requires
        s@.len() == N,
    ensures
        r@ == s@,
{
    let mut r: [u8; N] = [0u8;N];
    let mut i: usize = 0;
    while i < N
        invariant
            i <= N,
            s@.len() == N,
            forall|j: int| 0 <= j < i ==> r@[j] == s@[j],
        decreases N - i,
    {
        r[i] = s[i];
        i += 1;
    }
    assert(r@ =~= s@);
    r
}

/// The number that four bytes spell, most significant byte first.
pub fn be_u32(s: &[u8]) -> (r: u32)
    requires
        s@.len() == 4,
    ensures
        r == be_value(s@),
{
    let mut r: u32 = 0;
    let mut i: usize = 0;
    proof {
        reveal_with_fuel(pow256, 5);
        assert(s@.take(0) =~= Seq::<u8>::empty());
    }
    while i < 4
        invariant
            i <= 4,
            s@.len() == 4,
            r == be_value(s@.take(i as int)),
        decreases 4 - i,
    {
        proof {
            lemma_be_value_prefix(s@, i as int);
            reveal_with_fuel(pow256, 5);
        }
        r = r * 256 + s[i] as u32;
        i += 1;
    }
    assert(s@.take(4) =~= s@);
    r
}

/// `256^a <= 256^b` where `a <= b`.
pub proof fn lemma_pow256_increases(a: nat, b: nat)
    requires
        a <= b,
    ensures
        pow256(a) <= pow256(b),
    decreases b,
{
    if a < b {
        lemma_pow256_increases(a, (b - 1) as nat);
    }
}

/// The number that at most sixteen bytes spell, most significant byte first.
pub fn be_u128(s: &[u8]) -> (r: u128)
    requires
        s@.len() <= 16,
    ensures
        r == be_value(s@),
{
    let mut r: u128 = 0;
    let mut i: usize = 0;
    proof {
        assert(s@.take(0) =~= Seq::<u8>::empty());
    }
    while i < s.len()
        invariant
            i <= s.len(),
            s@.len() <= 16,
            r == be_value(s@.take(i as int)),
        decreases s.len() - i,
    {
        proof {
            lemma_be_value_prefix(s@, i as int);
            lemma_pow256_increases(i as nat, 15);
            reveal_with_fuel(pow256, 16);
        }
        r = r * 256 + s[i] as u128;
        i += 1;
    }
    assert(s@.take(s@.len() as int) =~= s@);
    r
}

/// The four bytes that spell `n`, most significant byte first.
pub open spec fn be_four(n: nat) -> Seq<u8> {
    seq![
        (n / 0x100_0000 % 0x100) as u8,
        (n / 0x1_0000 % 0x100) as u8,
        (n / 0x100 % 0x100) as u8,
        (n % 0x100) as u8,
    ]
}

/// Writing a 32-bit number and reading it back gives the number.
pub proof fn lemma_be_four_value(n: nat)
    requires
        n <= u32::MAX,
    ensures
        be_value(be_four(n)) == n,
{
    lemma_be_value_four(be_four(n));
}

/// Reading four bytes and writing the number gives the bytes.
pub proof fn lemma_be_value_be_four(s: Seq<u8>)
    requires
        s.len() == 4,
    ensures
        be_value(s) <= u32::MAX,
        be_four(be_value(s)) == s,
{
    lemma_be_value_four(s);
    lemma_digits(s[0] as int, s[1] as int, s[2] as int, s[3] as int);
    assert(be_four(be_value(s)) =~= s);
}

/// Four digits in base 256 are found again in the number that they make.
proof fn lemma_digits(a: int, b: int, c: int, d: int)
    requires
        0 <= a < 0x100,
        0 <= b < 0x100,
        0 <= c < 0x100,
        0 <= d < 0x100,
    ensures
        ({
            let n = a * 0x100_0000 + b * 0x1_0000 + c * 0x100 + d;
            &&& n / 0x100_0000 % 0x100 == a
            &&& n / 0x1_0000 % 0x100 == b
            &&& n / 0x100 % 0x100 == c
            &&& n % 0x100 == d
        }),
{
    let n = a * 0x100_0000 + b * 0x1_0000 + c * 0x100 + d;
    assert(n / 0x100_0000 == a);
    assert(n / 0x1_0000 == a * 0x100 + b);
    assert(n / 0x100 == a * 0x1_0000 + b * 0x100 + c);
}

/// The four bytes that spell `n`, most significant byte first.
pub fn u32_be_bytes(n: u32) -> (r: [u8; 4])
    ensures
        r@ == be_four(n as nat),
{
    let b0: u8 = (n / 0x100_0000 % 0x100) as u8;
    let b1: u8 = (n / 0x1_0000 % 0x100) as u8;
    let b2: u8 = (n / 0x100 % 0x100) as u8;
    let b3: u8 = (n % 0x100) as u8;
    let r: [u8; 4] = [b0, b1, b2, b3];
    assert(r@ =~= be_four(n as nat));
    r
}

/// A four-byte number, written out.
pub proof fn lemma_be_value_four(s: Seq<u8>)
    requires
        s.len() == 4,
    ensures
        be_value(s) == s[0] * 0x100_0000 + s[1] * 0x1_0000 + s[2] * 0x100 + s[3],
{
    reveal_with_fuel(be_value, 5);
    let s3 = s.drop_last();
    let s2 = s3.drop_last();
    let s1 = s2.drop_last();
    assert(s1.drop_last().len() == 0);
    assert(be_value(s1) == s[0]);
    assert(be_value(s2) == s[0] * 256 + s[1]);
    assert(be_value(s3) == (s[0] * 256 + s[1]) * 256 + s[2]);
}

} // verus!
