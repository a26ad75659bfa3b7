//! Little-endian numbers: the bytes of a number, lowest first.

use vstd::prelude::*;

verus! {

/// 256 to the power `n`: the number of values that `n` bytes can hold.
pub open spec fn pow256(n: nat) -> nat
    decreases n,
{
    if n == 0 {
        1
    } else {
        256 * pow256((n - 1) as nat)
    }
}

/// The `width` lowest bytes of `value`, lowest first.
pub open spec fn le_bytes(value: nat, width: nat) -> Seq<u8>
    decreases width,
{
    if width == 0 {
        Seq::empty()
    } else {
        seq![(value % 256) as u8] + le_bytes(value / 256, (width - 1) as nat)
    }
}

/// The number whose little-endian bytes are `bytes`.
pub open spec fn le_value(bytes: Seq<u8>) -> nat
    decreases bytes.len(),
{
    if bytes.len() == 0 {
        0
    } else {
        bytes[0] as nat + 256 * le_value(bytes.drop_first())
    }
}

/// The unsigned number that stands for `value` in two's complement on `width` bytes.
pub open spec fn twos_complement(value: int, width: nat) -> nat {
    if value >= 0 {
        value as nat
    } else {
        (pow256(width) + value) as nat
    }
}

/// The signed number for which `raw` stands in two's complement on `width` bytes.
pub open spec fn from_twos_complement(raw: nat, width: nat) -> int {
    if 2 * raw < pow256(width) {
        raw as int
    } else {
        raw - pow256(width)
    }
}

/// Whether `value` is a signed number of `width` bytes.
pub open spec fn fits_signed(value: int, width: nat) -> bool {
    -(pow256(width) as int) <= 2 * value < pow256(width)
}

/// The values of `pow256` at the widths of the integer types.
pub proof fn lemma_pow256_values()
    ensures
        pow256(0) == 1,
        pow256(1) == 0x100,
        pow256(2) == 0x1_0000,
        pow256(4) == 0x1_0000_0000,
        pow256(8) == 0x1_0000_0000_0000_0000,
        pow256(16) == 0x1_0000_0000_0000_0000_0000_0000_0000_0000,
{
    assert(pow256(1) == 0x100) by {
        reveal_with_fuel(pow256, 2);
    }
    assert(pow256(2) == 0x1_0000) by {
        reveal_with_fuel(pow256, 3);
    }
    assert(pow256(3) == 0x100_0000);
    assert(pow256(4) == 0x1_0000_0000);
    assert(pow256(5) == 0x100_0000_0000);
    assert(pow256(6) == 0x1_0000_0000_0000);
    assert(pow256(7) == 0x100_0000_0000_0000);
    assert(pow256(8) == 0x1_0000_0000_0000_0000);
    assert(pow256(9) == 0x100_0000_0000_0000_0000);
    assert(pow256(10) == 0x1_0000_0000_0000_0000_0000);
    assert(pow256(11) == 0x100_0000_0000_0000_0000_0000);
    assert(pow256(12) == 0x1_0000_0000_0000_0000_0000_0000);
    assert(pow256(13) == 0x100_0000_0000_0000_0000_0000_0000);
    assert(pow256(14) == 0x1_0000_0000_0000_0000_0000_0000_0000);
    assert(pow256(15) == 0x100_0000_0000_0000_0000_0000_0000_0000);
    assert(pow256(16) == 0x1_0000_0000_0000_0000_0000_0000_0000_0000);
}

/// `pow256` grows with its argument.
pub proof fn lemma_pow256_grows(a: nat, b: nat)
    requires
        a <= b,
    ensures
        0 < pow256(a) <= pow256(b),
    decreases b,
{
    if b == 0 {
    } else if a == b {
        lemma_pow256_grows(0, (b - 1) as nat);
    } else {
        lemma_pow256_grows(a, (b - 1) as nat);
    }
}

/// `le_bytes` gives as many bytes as asked for.
pub proof fn lemma_le_bytes_len(value: nat, width: nat)
    ensures
        le_bytes(value, width).len() == width,
    decreases width,
{
    if width > 0 {
        lemma_le_bytes_len(value / 256, (width - 1) as nat);
    }
}

/// The value of `n` bytes is below `pow256(n)`.
pub proof fn lemma_le_value_bound(bytes: Seq<u8>)
    ensures
        le_value(bytes) < pow256(bytes.len()),
    decreases bytes.len(),
{
    if bytes.len() > 0 {
        lemma_le_value_bound(bytes.drop_first());
    }
}

/// The bytes of a number that fits give the number back.
pub proof fn lemma_le_value_of_le_bytes(value: nat, width: nat)
    requires
        value < pow256(width),
    ensures
        le_value(le_bytes(value, width)) == value,
    decreases width,
{
    if width > 0 {
        let rest = le_bytes(value / 256, (width - 1) as nat);
        lemma_le_value_of_le_bytes(value / 256, (width - 1) as nat);
        lemma_le_bytes_len(value / 256, (width - 1) as nat);
        assert(le_bytes(value, width).drop_first() =~= rest);
    }
}

/// Two's complement and its inverse undo each other.
pub proof fn lemma_twos_complement_inverse(value: int, width: nat)
    requires
        fits_signed(value, width),
    ensures
        twos_complement(value, width) < pow256(width),
        from_twos_complement(twos_complement(value, width), width) == value,
{
    lemma_pow256_grows(0, width);
}

/// The `width` lowest bytes of `value`, lowest first.
pub fn le_encode(value: u128, width: usize) -> (out: Vec<u8>)
    ensures
        out@ == le_bytes(value as nat, width as nat),
{
    let mut out: Vec<u8> = Vec::new();
    let mut left: u128 = value;
    while out.len() < width
        invariant
            out@.len() <= width,
            le_bytes(value as nat, width as nat) == out@ + le_bytes(
                left as nat,
                (width - out@.len()) as nat,
            ),
        decreases width - out@.len(),
    {
        let ghost before = out@;
        let byte: u8 = (left % 256) as u8;
        out.push(byte);
        assert(before + le_bytes(left as nat, (width - before.len()) as nat) =~= out@ + le_bytes(
            (left / 256) as nat,
            (width - out@.len()) as nat,
        ));
        left = left / 256;
    }
    assert(out@ + le_bytes(left as nat, 0) =~= out@);
    out
}

/// The number whose little-endian bytes are `bytes`.
pub(crate) fn le_decode(bytes: &Vec<u8>) -> (value: u128)
    requires
        bytes@.len() <= 16,
    ensures
        value == le_value(bytes@),
        value < pow256(bytes@.len()),
{
    let mut value: u128 = 0;
    let mut i: usize = bytes.len();
    assert(bytes@.skip(i as int) =~= Seq::<u8>::empty());
    while i > 0
        invariant
            i <= bytes@.len() <= 16,
            value == le_value(bytes@.skip(i as int)),
        decreases i,
    {
        proof {
            let tail = bytes@.skip(i as int);
            let more = bytes@.skip(i - 1);
            assert(more.drop_first() =~= tail);
            lemma_le_value_bound(tail);
            lemma_pow256_grows(tail.len(), 15);
            lemma_pow256_values();
            assert(pow256(16) == 256 * pow256(15));
        }
        i = i - 1;
        value = value * 256 + bytes[i] as u128;
    }
    proof {
        assert(bytes@.skip(0) =~= bytes@);
        lemma_le_value_bound(bytes@);
    }
    value
}

/// The greatest number that `width` bytes can hold.
fn max_raw(width: usize) -> (out: u128)
    requires
        width <= 16,
    ensures
        out == pow256(width as nat) - 1,
{
    let mut out: u128 = 0;
    let mut i: usize = 0;
    while i < width
        invariant
            i <= width <= 16,
            out == pow256(i as nat) - 1,
        decreases width - i,
    {
        proof {
            lemma_pow256_grows(i as nat, 15);
            lemma_pow256_values();
            assert(pow256(16) == 256 * pow256(15));
        }
        out = out * 256 + 255;
        i = i + 1;
    }
    out
}

/// The two's complement of `value` on `width` bytes.
pub(crate) fn to_raw(value: i128, width: usize) -> (raw: u128)
    requires
        1 <= width <= 16,
        fits_signed(value as int, width as nat),
    ensures
        raw == twos_complement(value as int, width as nat),
{
    if value >= 0 {
        value as u128
    } else {
        let top = max_raw(width);
        let below: u128 = (-(value + 1)) as u128;
        top - below
    }
}

/// The signed number for which `raw` stands on `width` bytes.
pub(crate) fn from_raw(raw: u128, width: usize) -> (value: i128)
    requires
        1 <= width <= 16,
        raw < pow256(width as nat),
    ensures
        value == from_twos_complement(raw as nat, width as nat),
        fits_signed(value as int, width as nat),
{
    let top = max_raw(width);
    proof {
        lemma_pow256_grows(width as nat, 16);
        lemma_pow256_values();
        assert(pow256(width as nat) == 256 * pow256((width - 1) as nat));
    }
    if raw <= top / 2 {
        raw as i128
    } else {
        let below: u128 = top - raw;
        -(below as i128) - 1
    }
}

} // verus!
