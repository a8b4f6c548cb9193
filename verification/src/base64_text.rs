//! Standard padded base64, as text stands for bytes.

use vstd::prelude::*;

verus! {

/// The error of the `base64` crate's decoder, carried through without looking
/// inside.
#[verifier::external_type_specification]
#[verifier::external_body]
pub struct ExDecodeError(base64::DecodeError);

/// The character for a six-bit number: A to Z, a to z, 0 to 9, + and /.
pub open spec fn base64_digit(n: int) -> char
    recommends
        0 <= n < 64,
{
    if n < 26 {
        (65 + n) as char
    } else if n < 52 {
        (97 + (n - 26)) as char
    } else if n < 62 {
        (48 + (n - 52)) as char
    } else if n == 62 {
        '+'
    } else {
        '/'
    }
}

/// The text that stands for `b`: four characters for three bytes, and the last
/// one or two bytes filled up with zero bits and `=`.
pub open spec fn base64_text(b: Seq<u8>) -> Seq<char>
    decreases b.len(),
{
    if b.len() == 0 {
        Seq::empty()
    } else if b.len() == 1 {
        let n = b[0] as int * 16;
        seq![base64_digit(n / 64), base64_digit(n % 64), '=', '=']
    } else if b.len() == 2 {
        let n = (b[0] as int * 256 + b[1] as int) * 4;
        seq![base64_digit(n / 4096), base64_digit(n / 64 % 64), base64_digit(n % 64), '=']
    } else {
        let n = b[0] as int * 65536 + b[1] as int * 256 + b[2] as int;
        seq![
            base64_digit(n / 262144),
            base64_digit(n / 4096 % 64),
            base64_digit(n / 64 % 64),
            base64_digit(n % 64),
        ] + base64_text(b.skip(3))
    }
}

/// `Engine::decode` of the `base64` crate with the `STANDARD` engine, which
/// demands the standard alphabet, full padding and zero fill bits: the bytes
/// whose [`base64_text`] the text is, or an error where it is no such text.
#[verifier::external_body]
pub(crate) fn decode_standard(text: &str) -> (r: Result<Vec<u8>, base64::DecodeError>)
    ensures
        match r {
            Ok(b) => base64_text(b@) == text@,
            Err(_) => forall|b: Seq<u8>| #[trigger] base64_text(b) != text@,
        },
{
    base64::Engine::decode(&base64::engine::general_purpose::STANDARD, text)
}

/// The four six-bit digits of a 24-bit number.
proof fn lemma_split24(n: int)
    requires
        0 <= n < 16777216,
    ensures
        0 <= n / 262144 < 64,
        0 <= n / 4096 % 64 < 64,
        0 <= n / 64 % 64 < 64,
        0 <= n % 64 < 64,
        n == n / 262144 * 262144 + n / 4096 % 64 * 4096 + n / 64 % 64 * 64 + n % 64,
{
}

/// Digits tell numbers apart, and the padding character is none of them.
proof fn lemma_digit(m: int, n: int)
    requires
        0 <= m < 64,
        0 <= n < 64,
    ensures
        base64_digit(m) != '=',
        base64_digit(m) == base64_digit(n) ==> m == n,
{
}

/// What the first four characters of a text are: the digits of the number that
/// the first bytes make when filled up with zeros, or padding.
proof fn lemma_first_four(b: Seq<u8>)
    requires
        b.len() > 0,
    ensures
        ({
            let t = base64_text(b);
            let n = first_number(b);
            &&& 0 <= n < 16777216
            &&& t.len() >= 4
            &&& t[0] == base64_digit(n / 262144)
            &&& t[1] == base64_digit(n / 4096 % 64)
            &&& t[2] == if b.len() == 1 {
                '='
            } else {
                base64_digit(n / 64 % 64)
            }
            &&& t[3] == if b.len() <= 2 {
                '='
            } else {
                base64_digit(n % 64)
            }
            &&& b.len() == 1 ==> n % 4096 == 0
            &&& b.len() == 2 ==> n % 64 == 0
        }),
{
    let n = first_number(b);
    if b.len() == 1 {
        let k = b[0] as int * 16;
        assert(n == k * 4096);
        assert(n / 262144 == k / 64);
        assert(n / 4096 == k);
    } else if b.len() == 2 {
        let k = (b[0] as int * 256 + b[1] as int) * 4;
        assert(n == k * 64);
        assert(n / 262144 == k / 4096);
        assert(n / 4096 == k / 64);
        assert(n / 64 == k);
    }
}

/// The first three bytes as one number, missing bytes counting as zero.
spec fn first_number(b: Seq<u8>) -> int {
    let b1: int = if b.len() > 1 {
        b[1] as int
    } else {
        0
    };
    let b2: int = if b.len() > 2 {
        b[2] as int
    } else {
        0
    };
    b[0] as int * 65536 + b1 * 256 + b2
}

/// Byte strings that agree in how many of the first three bytes they have, and
/// in the number that these make, agree in these bytes.
proof fn lemma_first_number(a: Seq<u8>, b: Seq<u8>)
    requires
        a.len() > 0,
        b.len() > 0,
        first_number(a) == first_number(b),
    ensures
        a[0] == b[0],
        a.len() > 1 && b.len() > 1 ==> a[1] == b[1],
        a.len() > 2 && b.len() > 2 ==> a[2] == b[2],
{
}

/// A text stands for one byte string only.
pub proof fn law_base64_text_injective(a: Seq<u8>, b: Seq<u8>)
    requires
        base64_text(a) == base64_text(b),
    ensures
        a == b,
    decreases a.len(),
{
    if a.len() == 0 || b.len() == 0 {
        if a.len() > 0 {
            lemma_first_four(a);
        }
        if b.len() > 0 {
            lemma_first_four(b);
        }
        assert(a =~= b);
    } else {
        let s = base64_text(a);
        let t = base64_text(b);
        let m = first_number(a);
        let n = first_number(b);
        lemma_first_four(a);
        lemma_first_four(b);
        lemma_split24(m);
        lemma_split24(n);
        lemma_digit(m / 262144, n / 262144);
        lemma_digit(m / 4096 % 64, n / 4096 % 64);
        lemma_digit(m / 64 % 64, n / 64 % 64);
        lemma_digit(n / 64 % 64, m / 64 % 64);
        lemma_digit(m % 64, n % 64);
        lemma_digit(n % 64, m % 64);
        assert(s[2] == t[2] && s[3] == t[3]);
        if a.len() == 1 {
            assert(m / 64 % 64 == 0 && n / 64 % 64 == 0 && m % 64 == 0 && n % 64 == 0);
        }
        assert(m == n);
        lemma_first_number(a, b);
        if a.len() <= 2 {
            assert(a =~= b);
        } else {
            assert(s.skip(4) =~= base64_text(a.skip(3)));
            assert(t.skip(4) =~= base64_text(b.skip(3)));
            law_base64_text_injective(a.skip(3), b.skip(3));
            assert forall|i: int| 0 <= i < a.len() implies a[i] == b[i] by {
                if i >= 3 {
                    assert(a[i] == a.skip(3)[i - 3]);
                    assert(b[i] == b.skip(3)[i - 3]);
                }
            }
            assert(a.len() == a.skip(3).len() + 3);
            assert(b.len() == b.skip(3).len() + 3);
            assert(a =~= b);
        }
    }
}

} // verus!
