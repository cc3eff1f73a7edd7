//! Little-endian byte encoding of unsigned integers.

use vstd::prelude::*;

verus! {

/// The `n` low-order bytes of `value`, least significant first.
pub open spec fn le_bytes(value: nat, n: nat) -> Seq<u8>
    decreases n,
{
    if n == 0 {
        Seq::empty()
    } else {
        seq![(value % 256) as u8] + le_bytes(value / 256, (n - 1) as nat)
    }
}

/// `n` zero bytes.
pub open spec fn zeros(n: nat) -> Seq<u8> {
    Seq::new(n, |i: int| 0u8)
}

/// The number whose bytes, least significant first, are `bytes`.
pub open spec fn le_value(bytes: Seq<u8>) -> nat
    decreases bytes.len(),
{
    if bytes.len() == 0 {
        0
    } else {
        bytes[0] as nat + 256 * le_value(bytes.drop_first())
    }
}

/// 256 raised to the power `n`: how many values `n` bytes can hold.
pub open spec fn byte_range(n: nat) -> nat
    decreases n,
{
    if n == 0 {
        1
    } else {
        256 * byte_range((n - 1) as nat)
    }
}

/// `le_bytes` yields exactly as many bytes as it is asked for.
pub proof fn lemma_le_bytes_len(value: nat, n: nat)
    ensures
        le_bytes(value, n).len() == n,
    decreases n,
{
    if n > 0 {
        lemma_le_bytes_len(value / 256, (n - 1) as nat);
    }
}

/// Decoding what was encoded gives the value back, for every value that fits.
pub proof fn lemma_le_round_trip(value: nat, n: nat)
    requires
        value < byte_range(n),
    ensures
        le_value(le_bytes(value, n)) == value,
    decreases n,
{
    lemma_le_bytes_len(value, n);
    if n > 0 {
        lemma_le_bytes_len(value / 256, (n - 1) as nat);
        lemma_le_round_trip(value / 256, (n - 1) as nat);
        assert(le_bytes(value, n).drop_first() =~= le_bytes(value / 256, (n - 1) as nat));
    }
}

/// Encoding what was decoded gives the bytes back.
pub proof fn lemma_le_bytes_of_value(bytes: Seq<u8>)
    ensures
        le_bytes(le_value(bytes), bytes.len()) =~= bytes,
        le_value(bytes) < byte_range(bytes.len()),
    decreases bytes.len(),
{
    if bytes.len() > 0 {
        let rest = bytes.drop_first();
        lemma_le_bytes_of_value(rest);
        let value = le_value(bytes);
        assert(value % 256 == bytes[0] as nat && value / 256 == le_value(rest)) by (nonlinear_arith)
            requires
                value == bytes[0] as nat + 256 * le_value(rest),
        ;
        assert(bytes =~= seq![bytes[0]] + rest);
    }
}

/// What two, four and eight bytes can hold.
pub proof fn lemma_byte_ranges()
    ensures
        byte_range(1) == 0x100,
        byte_range(2) == 0x1_0000,
        byte_range(4) == 0x1_0000_0000,
        byte_range(8) == 0x1_0000_0000_0000_0000,
{
    reveal_with_fuel(byte_range, 9);
}

/// Encodes the `n` low-order bytes of `value`, least significant first.
pub fn to_le_bytes(value: u64, n: usize) -> (bytes: Vec<u8>)
    ensures
        bytes@ == le_bytes(value as nat, n as nat),
{
    let mut bytes: Vec<u8> = Vec::new();
    let mut rest: u64 = value;
    let mut i: usize = 0;
    while i < n
        invariant
            i <= n,
            bytes@ + le_bytes(rest as nat, (n - i) as nat) == le_bytes(value as nat, n as nat),
        decreases n - i,
    {
        let ghost before = bytes@;
        let ghost left = rest;
        bytes.push((rest % 256) as u8);
        rest = rest / 256;
        i = i + 1;
        assert(bytes@ + le_bytes(rest as nat, (n - i) as nat) =~= before + le_bytes(
            left as nat,
            (n - i + 1) as nat,
        ));
    }
    assert(bytes@ + le_bytes(rest as nat, 0) =~= bytes@);
    bytes
}

/// Decodes up to eight bytes, least significant first.
pub fn from_le_bytes(bytes: &[u8]) -> (value: u64)
    requires
        bytes@.len() <= 8,
    ensures
        value == le_value(bytes@),
{
    let mut value: u64 = 0;
    let mut i: usize = bytes.len();
    proof {
        assert(bytes@.subrange(i as int, bytes@.len() as int) =~= Seq::<u8>::empty());
    }
    while i > 0
        invariant
            i <= bytes@.len() <= 8,
            value == le_value(bytes@.subrange(i as int, bytes@.len() as int)),
        decreases i,
    {
        let ghost tail = bytes@.subrange(i as int, bytes@.len() as int);
        i = i - 1;
        proof {
            let longer = bytes@.subrange(i as int, bytes@.len() as int);
            assert(longer.drop_first() =~= tail);
            lemma_le_bytes_of_value(longer);
            lemma_byte_range_monotonic(longer.len(), 8);
            lemma_byte_ranges();
        }
        value = value * 256 + bytes[i] as u64;
    }
    assert(bytes@.subrange(0, bytes@.len() as int) =~= bytes@);
    value
}

proof fn lemma_byte_range_monotonic(m: nat, n: nat)
    requires
        m <= n,
    ensures
        byte_range(m) <= byte_range(n),
    decreases n,
{
    if m < n {
        lemma_byte_range_monotonic(m, (n - 1) as nat);
    }
}

/// The bytes of a number are its digits to the base 256, the least significant first.
pub proof fn law_bytes_are_little_endian(value: nat, n: nat)
    ensures
        le_bytes(value, n).len() == n,
        n > 0 ==> le_bytes(value, n)[0] == value % 256,
        n > 1 ==> le_bytes(value, n)[1] == value / 0x100 % 256,
        n > 2 ==> le_bytes(value, n)[2] == value / 0x1_0000 % 256,
        n > 3 ==> le_bytes(value, n)[3] == value / 0x100_0000 % 256,
        n > 4 ==> le_bytes(value, n)[4] == value / 0x1_0000_0000 % 256,
        n > 5 ==> le_bytes(value, n)[5] == value / 0x100_0000_0000 % 256,
        n > 6 ==> le_bytes(value, n)[6] == value / 0x1_0000_0000_0000 % 256,
        n > 7 ==> le_bytes(value, n)[7] == value / 0x100_0000_0000_0000 % 256,
    decreases n,
{
    lemma_le_bytes_len(value, n);
    if n > 0 {
        law_bytes_are_little_endian(value / 256, (n - 1) as nat);
    }
}

/// A number is the sum of its bytes, each weighted by the power of 256 of its place: one
/// more byte at the end counts 256 times as much as one before it would.
pub proof fn law_value_weighs_its_bytes(bytes: Seq<u8>, last: u8)
    ensures
        le_value(Seq::<u8>::empty()) == 0,
        le_value(bytes.push(last)) == le_value(bytes) + last * byte_range(bytes.len()),
    decreases bytes.len(),
{
    if bytes.len() == 0 {
        assert(bytes.push(last).drop_first() =~= Seq::<u8>::empty());
        assert(le_value(Seq::<u8>::empty()) == 0);
        assert(bytes.push(last)[0] == last);
        assert(last * byte_range(0) == last) by {
            assert(byte_range(0) == 1);
        }
    } else {
        let rest = bytes.drop_first();
        law_value_weighs_its_bytes(rest, last);
        assert(bytes.push(last).drop_first() =~= rest.push(last));
        assert(256 * (le_value(rest) + last * byte_range(rest.len())) == 256 * le_value(rest) + last * (256
            * byte_range(rest.len()))) by (nonlinear_arith);
    }
}

} // verus!
