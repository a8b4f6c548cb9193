//! IPv4 addresses: their text, their number, and the network that they are in.

use vstd::prelude::*;

use crate::bytes::{be_four, be_u32, be_value, u32_be_bytes};
use crate::bytes::{lemma_be_four_value, lemma_be_value_be_four};
use crate::text::{chars_of, decimal, digit, digit_char, text_of};
use crate::wire::Ipv4AddrBytes;

verus! {

/// An octet in decimal, without leading zeros.
pub open spec fn octet_text(n: u8) -> Seq<char> {
    if n < 10 {
        seq![digit(n as int)]
    } else if n < 100 {
        seq![digit(n as int / 10), digit(n as int % 10)]
    } else {
        seq![digit(n as int / 100), digit(n as int / 10 % 10), digit(n as int % 10)]
    }
}

/// An address in dotted decimal.
pub open spec fn dotted(octets: Seq<u8>) -> Seq<char> {
    octet_text(octets[0]) + seq!['.'] + octet_text(octets[1]) + seq!['.'] + octet_text(octets[2])
        + seq!['.'] + octet_text(octets[3])
}

/// The address that a text holds, if it is the dotted text of one.
pub open spec fn address_of(text: Seq<char>) -> Option<Seq<u8>> {
    if exists|o: Seq<u8>| o.len() == 4 && #[trigger] dotted(o) == text {
        Some(choose|o: Seq<u8>| o.len() == 4 && #[trigger] dotted(o) == text)
    } else {
        None
    }
}

spec fn is_digit(c: char) -> bool {
    '0' <= c && c <= '9'
}

spec fn digit_value(c: char) -> int {
    c as int - 48
}

/// How many characters at the front of `s` are digits.
spec fn digits_in_front(s: Seq<char>) -> nat
    decreases s.len(),
{
    if s.len() > 0 && is_digit(s[0]) {
        1 + digits_in_front(s.skip(1))
    } else {
        0
    }
}

/// The number that the first `n` characters make, for `n` from one to three.
spec fn number_in_front(s: Seq<char>, n: nat) -> int {
    if n == 1 {
        digit_value(s[0])
    } else if n == 2 {
        digit_value(s[0]) * 10 + digit_value(s[1])
    } else {
        digit_value(s[0]) * 100 + digit_value(s[1]) * 10 + digit_value(s[2])
    }
}

/// The octet at the front of `s`, and the text after it.
#[verifier::opaque]
spec fn take_octet(s: Seq<char>) -> Option<(u8, Seq<char>)> {
    let n = digits_in_front(s);
    if n == 0 || n > 3 || (n > 1 && s[0] == '0') || number_in_front(s, n) > 255 {
        None
    } else {
        Some((number_in_front(s, n) as u8, s.skip(n as int)))
    }
}

/// The octet at the front of `s` and the text after the dot that follows it.
spec fn take_octet_dot(s: Seq<char>) -> Option<(u8, Seq<char>)> {
    match take_octet(s) {
        Some((n, rest)) => if rest.len() > 0 && rest[0] == '.' {
            Some((n, rest.skip(1)))
        } else {
            None
        },
        None => None,
    }
}

/// The address that a text holds.
spec fn take_address(s: Seq<char>) -> Option<Seq<u8>> {
    match take_octet_dot(s) {
        Some((a, s1)) => match take_octet_dot(s1) {
            Some((b, s2)) => match take_octet_dot(s2) {
                Some((c, s3)) => match take_octet(s3) {
                    Some((d, s4)) => if s4.len() == 0 {
                        Some(seq![a, b, c, d])
                    } else {
                        None
                    },
                    None => None,
                },
                None => None,
            },
            None => None,
        },
        None => None,
    }
}

proof fn lemma_digits_in_front(s: Seq<char>)
    ensures
        digits_in_front(s) <= s.len(),
        forall|i: int| 0 <= i < digits_in_front(s) ==> is_digit(#[trigger] s[i]),
        digits_in_front(s) < s.len() ==> !is_digit(s[digits_in_front(s) as int]),
    decreases s.len(),
{
    if s.len() > 0 && is_digit(s[0]) {
        let rest = s.skip(1);
        lemma_digits_in_front(rest);
        assert forall|i: int| 0 <= i < digits_in_front(s) implies is_digit(#[trigger] s[i]) by {
            if i > 0 {
                assert(s[i] == rest[i - 1]);
            }
        }
        if digits_in_front(s) < s.len() {
            assert(s[digits_in_front(s) as int] == rest[digits_in_front(rest) as int]);
        }
    }
}

/// What is read as an octet is its decimal text.
proof fn lemma_take_octet_sound(s: Seq<char>)
    ensures
        take_octet(s) matches Some((n, rest)) ==> s == octet_text(n) + rest,
{
    reveal(take_octet);
    if let Some((n, rest)) = take_octet(s) {
        let k = digits_in_front(s);
        lemma_digits_in_front(s);
        assert(is_digit(s[0]));
        if k > 1 {
            assert(is_digit(s[1]));
        }
        if k > 2 {
            assert(is_digit(s[2]));
        }
        assert(s =~= octet_text(n) + rest);
    }
}

/// An octet's decimal text is read as that octet.
proof fn lemma_take_octet_complete(n: u8, rest: Seq<char>)
    requires
        rest.len() == 0 || !is_digit(rest[0]),
    ensures
        take_octet(octet_text(n) + rest) == Some((n, rest)),
{
    let s = octet_text(n) + rest;
    let k = octet_text(n).len();
    reveal(take_octet);
    reveal_with_fuel(digits_in_front, 4);
    assert(s.skip(k as int) =~= rest);
    if k == 1 {
        assert(s.skip(1) =~= rest);
    } else if k == 2 {
        assert(s.skip(1).skip(1) =~= rest);
    } else {
        assert(s.skip(1).skip(1).skip(1) =~= rest);
    }
    assert(digits_in_front(s) == k);
}

/// What is read as an address is its dotted text.
proof fn lemma_take_address_sound(s: Seq<char>)
    ensures
        take_address(s) matches Some(o) ==> o.len() == 4 && dotted(o) == s,
{
    if let Some(o) = take_address(s) {
        let (a, s1) = take_octet_dot(s).unwrap();
        let (b, s2) = take_octet_dot(s1).unwrap();
        let (c, s3) = take_octet_dot(s2).unwrap();
        let (d, s4) = take_octet(s3).unwrap();
        lemma_take_octet_dot_sound(s);
        lemma_take_octet_dot_sound(s1);
        lemma_take_octet_dot_sound(s2);
        lemma_take_octet_sound(s3);
        assert(octet_text(d) + s4 =~= octet_text(d));
        lemma_join(octet_text(a), octet_text(b), octet_text(c), octet_text(d), seq!['.']);
    }
}

/// What is read as an octet and a dot is its decimal text and a dot.
proof fn lemma_take_octet_dot_sound(s: Seq<char>)
    ensures
        take_octet_dot(s) matches Some((n, rest)) ==> s == octet_text(n) + (seq!['.'] + rest),
{
    if let Some((n, rest)) = take_octet_dot(s) {
        lemma_take_octet_sound(s);
        let after = take_octet(s).unwrap().1;
        assert(after =~= seq!['.'] + rest);
    }
}

/// Four texts with something between them, joined from the right or from the left.
proof fn lemma_join(a: Seq<char>, b: Seq<char>, c: Seq<char>, d: Seq<char>, dot: Seq<char>)
    ensures
        a + (dot + (b + (dot + (c + (dot + d))))) == a + dot + b + dot + c + dot + d,
{
    assert(a + (dot + (b + (dot + (c + (dot + d))))) =~= a + dot + b + dot + c + dot + d);
}

/// An address's dotted text is read as that address.
proof fn lemma_take_address_complete(o: Seq<u8>)
    requires
        o.len() == 4,
    ensures
        take_address(dotted(o)) == Some(o),
{
    let s3 = octet_text(o[3]);
    let s2 = octet_text(o[2]) + (seq!['.'] + s3);
    let s1 = octet_text(o[1]) + (seq!['.'] + s2);
    let s = octet_text(o[0]) + (seq!['.'] + s1);
    lemma_join(
        octet_text(o[0]),
        octet_text(o[1]),
        octet_text(o[2]),
        octet_text(o[3]),
        seq!['.'],
    );
    assert(dotted(o) == s);
    lemma_take_octet_complete(o[0], seq!['.'] + s1);
    lemma_take_octet_complete(o[1], seq!['.'] + s2);
    lemma_take_octet_complete(o[2], seq!['.'] + s3);
    lemma_take_octet_complete(o[3], Seq::empty());
    assert(s3 + Seq::<char>::empty() =~= s3);
    assert((seq!['.'] + s1).skip(1) =~= s1);
    assert((seq!['.'] + s2).skip(1) =~= s2);
    assert((seq!['.'] + s3).skip(1) =~= s3);
    assert(seq![o[0], o[1], o[2], o[3]] =~= o);
}

/// A text is the dotted text of one address only.
pub proof fn law_dotted_injective(a: Seq<u8>, b: Seq<u8>)
    requires
        a.len() == 4,
        b.len() == 4,
        dotted(a) == dotted(b),
    ensures
        a == b,
{
    lemma_take_address_complete(a);
    lemma_take_address_complete(b);
}

/// The text of an address is its four octets as decimal numbers, first to last,
/// with dots between them.
pub proof fn law_dotted_is_four_numbers(a: u8, b: u8, c: u8, d: u8)
    ensures
        dotted(seq![a, b, c, d]) == decimal(a as nat) + seq!['.'] + decimal(b as nat) + seq!['.']
            + decimal(c as nat) + seq!['.'] + decimal(d as nat),
{
    lemma_octet_is_decimal(a);
    lemma_octet_is_decimal(b);
    lemma_octet_is_decimal(c);
    lemma_octet_is_decimal(d);
}

proof fn lemma_octet_is_decimal(n: u8)
    ensures
        octet_text(n) == decimal(n as nat),
{
    reveal_with_fuel(decimal, 3);
    assert(octet_text(n) =~= decimal(n as nat));
}

/// A text holds an address if and only if it is that address's dotted text.
pub proof fn law_text_holds_one_address(text: Seq<char>, octets: Seq<u8>)
    requires
        octets.len() == 4,
    ensures
        address_of(text) == Some(octets) <==> dotted(octets) == text,
        address_of(dotted(octets)) == Some(octets),
        address_of(text) is Some ==> address_of(text)->0.len() == 4,
{
    if dotted(octets) == text {
        law_dotted_injective(address_of(text)->0, octets);
    }
    law_dotted_injective(address_of(dotted(octets))->0, octets);
}

/// The octet at the front of a text, and the text after it.
fn parse_octet(s: &[char]) -> (r: Option<(u8, &[char])>)
    ensures
        match r {
            Some((n, rest)) => take_octet(s@) == Some((n, rest@)),
            None => take_octet(s@) is None,
        },
{
    let mut count: usize = 0;
    let mut value: u32 = 0;
    proof {
        reveal(take_octet);
        lemma_digits_in_front(s@);
    }
    while count < s.len() && count < 4 && '0' <= s[count] && s[count] <= '9'
        invariant
            count <= 4,
            count <= s@.len(),
            value <= 9999,
            forall|i: int| 0 <= i < count ==> is_digit(#[trigger] s@[i]),
            count == 0 ==> value == 0,
            1 <= count <= 3 ==> value == number_in_front(s@, count as nat),
            count <= 1 ==> value <= 9,
            count <= 2 ==> value <= 99,
            count <= 3 ==> value <= 999,
        decreases s.len() - count,
    {
        value = value * 10 + (s[count] as u32 - 48);
        count += 1;
    }
    proof {
        let k = digits_in_front(s@);
        if count < k {
            assert(is_digit(s@[count as int]));
        }
        if k < count {
            assert(is_digit(s@[k as int]));
        }
    }
    if count == 0 || count > 3 || (count > 1 && s[0] == '0') || value > 255 {
        None
    } else {
        let rest = vstd::slice::slice_subrange(s, count, s.len());
        assert(rest@ =~= s@.skip(count as int));
        Some((value as u8, rest))
    }
}

/// The octet at the front of a text, and the text after the dot that follows it.
fn parse_octet_dot(s: &[char]) -> (r: Option<(u8, &[char])>)
    ensures
        match r {
            Some((n, rest)) => take_octet_dot(s@) == Some((n, rest@)),
            None => take_octet_dot(s@) is None,
        },
{
    match parse_octet(s) {
        Some((n, rest)) => if rest.len() > 0 && rest[0] == '.' {
            let after = vstd::slice::slice_subrange(rest, 1, rest.len());
            assert(after@ =~= rest@.skip(1));
            Some((n, after))
        } else {
            None
        },
        None => None,
    }
}

/// The address that a text holds: four octets in decimal without leading zeros,
/// with dots between them and nothing around them.
pub fn parse_ipv4(text: &str) -> (r: Option<Ipv4AddrBytes>)
    ensures
        match r {
            Some(ip) => dotted(ip@) == text@,
            None => forall|o: Seq<u8>| o.len() == 4 ==> #[trigger] dotted(o) != text@,
        },
        address_of(text@) == match r {
            Some(ip) => Some(ip@),
            None => None,
        },
{
    let chars = chars_of(text);
    proof {
        lemma_take_address_sound(text@);
        assert forall|o: Seq<u8>| o.len() == 4 && #[trigger] dotted(o) == text@ implies take_address(
            text@,
        ) == Some(o) by {
            lemma_take_address_complete(o);
        }
    }
    let (a, s1) = match parse_octet_dot(chars.as_slice()) {
        Some(p) => p,
        None => return None,
    };
    let (b, s2) = match parse_octet_dot(s1) {
        Some(p) => p,
        None => return None,
    };
    let (c, s3) = match parse_octet_dot(s2) {
        Some(p) => p,
        None => return None,
    };
    let (d, s4) = match parse_octet(s3) {
        Some(p) => p,
        None => return None,
    };
    if s4.len() != 0 {
        return None;
    }
    let ip = Ipv4AddrBytes([a, b, c, d]);
    assert(ip@ =~= seq![a, b, c, d]);
    proof {
        law_dotted_injective(address_of(text@).unwrap(), ip@);
    }
    Some(ip)
}

/// Appends an octet in decimal.
fn push_octet(out: &mut Vec<char>, n: u8)
    ensures
        final(out)@ == old(out)@ + octet_text(n),
{
    if n >= 100 {
        out.push(digit_char(n / 100));
    }
    if n >= 10 {
        out.push(digit_char(n / 10 % 10));
    }
    out.push(digit_char(n % 10));
    assert(out@ =~= old(out)@ + octet_text(n));
}

/// The address in dotted decimal.
pub fn ipv4_text(ip: Ipv4AddrBytes) -> (r: String)
    ensures
        r@ == dotted(ip@),
{
    let mut out: Vec<char> = Vec::new();
    push_octet(&mut out, ip.0[0]);
    out.push('.');
    push_octet(&mut out, ip.0[1]);
    out.push('.');
    push_octet(&mut out, ip.0[2]);
    out.push('.');
    push_octet(&mut out, ip.0[3]);
    proof {
        let t0 = octet_text(ip@[0]);
        let t1 = octet_text(ip@[1]);
        let t2 = octet_text(ip@[2]);
        let t3 = octet_text(ip@[3]);
        lemma_pushes(t0, t1, t2, t3);
    }
    text_of(out.as_slice())
}

proof fn lemma_pushes(a: Seq<char>, b: Seq<char>, c: Seq<char>, d: Seq<char>)
    ensures
        ((((Seq::empty() + a).push('.') + b).push('.') + c).push('.') + d) == a + seq!['.'] + b
            + seq!['.'] + c + seq!['.'] + d,
{
    assert((((Seq::empty() + a).push('.') + b).push('.') + c).push('.') + d =~= a + seq!['.'] + b
        + seq!['.'] + c + seq!['.'] + d);
}

/// The address as a big-endian number.
pub fn ipv4_to_u32(ip: Ipv4AddrBytes) -> (r: u32)
    ensures
        r == be_value(ip@),
{
    be_u32(&ip.0)
}

/// The address with a big-endian number.
pub fn u32_to_ipv4(v: u32) -> (r: Ipv4AddrBytes)
    ensures
        r@ == be_four(v as nat),
{
    Ipv4AddrBytes(u32_be_bytes(v))
}

/// An address and its number determine each other.
pub proof fn law_ipv4_number(octets: Seq<u8>, v: u32)
    requires
        octets.len() == 4,
    ensures
        be_value(octets) <= u32::MAX,
        be_four(be_value(octets)) == octets,
        be_value(be_four(v as nat)) == v,
{
    lemma_be_value_be_four(octets);
    lemma_be_four_value(v as nat);
}

/// The network that an address is in: each octet with the bits of the mask.
pub open spec fn masked(ip: Seq<u8>, netmask: Seq<u8>) -> Seq<u8> {
    Seq::new(4, |i: int| ip[i] & netmask[i])
}

/// Masking the number is masking the octets.
proof fn lemma_masked_number(a: Seq<u8>, b: Seq<u8>, x: u32, y: u32)
    requires
        a.len() == 4,
        b.len() == 4,
        x == be_value(a),
        y == be_value(b),
    ensures
        be_four((x & y) as nat) == masked(a, b),
{
    crate::bytes::lemma_be_value_four(a);
    crate::bytes::lemma_be_value_four(b);
    let (a0, a1, a2, a3) = (a[0], a[1], a[2], a[3]);
    let (b0, b1, b2, b3) = (b[0], b[1], b[2], b[3]);
    let z: u32 = x & y;
    assert(z / 0x100_0000 % 0x100 == a0 & b0 && z / 0x1_0000 % 0x100 == a1 & b1 && z / 0x100 % 0x100
        == a2 & b2 && z % 0x100 == a3 & b3) by (bit_vector)
        requires
            x == a0 * 0x100_0000 + a1 * 0x1_0000 + a2 * 0x100 + a3,
            y == b0 * 0x100_0000 + b1 * 0x1_0000 + b2 * 0x100 + b3,
            z == x & y,
    ;
    assert(be_four(z as nat) =~= masked(a, b));
}

/// The network that an address is in.
pub fn overlay_network(virt_ip: Ipv4AddrBytes, netmask: Ipv4AddrBytes) -> (r: Ipv4AddrBytes)
    ensures
        r@ == masked(virt_ip@, netmask@),
{
    let x: u32 = ipv4_to_u32(virt_ip);
    let y: u32 = ipv4_to_u32(netmask);
    proof {
        lemma_masked_number(virt_ip@, netmask@, x, y);
    }
    u32_to_ipv4(x & y)
}

/// The network keeps the address's bits where the mask has ones, and has zeros
/// elsewhere.
pub proof fn law_network_bits(ip: Seq<u8>, netmask: Seq<u8>, i: int)
    requires
        ip.len() == 4,
        netmask.len() == 4,
        0 <= i < 4,
    ensures
        masked(ip, netmask).len() == 4,
        masked(ip, netmask)[i] & netmask[i] == ip[i] & netmask[i],
        masked(ip, netmask)[i] & !netmask[i] == 0,
{
    let a = ip[i];
    let m = netmask[i];
    assert((a & m) & m == a & m) by (bit_vector);
    assert((a & m) & !m == 0) by (bit_vector);
}

/// A network's address is in that network.
pub proof fn law_network_of_network(ip: Seq<u8>, netmask: Seq<u8>)
    requires
        ip.len() == 4,
        netmask.len() == 4,
    ensures
        masked(masked(ip, netmask), netmask) == masked(ip, netmask),
{
    assert forall|a: u8, m: u8| #[trigger] ((a & m) & m) == a & m by {
        assert((a & m) & m == a & m) by (bit_vector);
    }
    assert(masked(masked(ip, netmask), netmask) =~= masked(ip, netmask));
}

} // verus!
