//! The laws of the numbers, booleans and characters.

use crate::endian::le_bytes;
use crate::endian::lemma_le_bytes_len;
use crate::endian::lemma_le_value_of_le_bytes;
use crate::endian::lemma_pow256_values;
use crate::endian::lemma_twos_complement_inverse;
use crate::endian::pow256;
use crate::endian::twos_complement;
use crate::impls::numbers::decode_fixed;
use crate::impls::scalars::bool_byte;
use crate::laws::reports_truncation;
use crate::laws::round_trips;
use crate::traits::Decoded;
use crate::traits::Marshal;
use crate::traits::UnMarshal;
use vstd::prelude::*;
use vstd::utf8::char_is_scalar;
use vstd::utf8::char_u32_cast;

verus! {

/// The bytes of a number that fits its width, with whatever bytes behind them, decode to
/// the number.
pub proof fn lemma_fixed_round_trip(value: nat, width: nat, rest: Seq<u8>)
    requires
        value < pow256(width),
    ensures
        decode_fixed(le_bytes(value, width) + rest, width) == (Decoded {
            outcome: Ok(value),
            used: width,
        }),
{
    let bytes = le_bytes(value, width);
    lemma_le_bytes_len(value, width);
    lemma_le_value_of_le_bytes(value, width);
    assert((bytes + rest).take(width as int) =~= bytes);
}

/// Decoding undoes encoding for `u8`.
pub proof fn lemma_u8_round_trips()
    ensures
        round_trips::<u8>(),
{
    assert forall|m: u8, rest: Seq<u8>| #[trigger]
        u8::decode(u8::encoding(m) + rest) == (Decoded {
            outcome: Ok(m),
            used: u8::encoding(m).len(),
        }) by {
        lemma_pow256_values();
        lemma_le_bytes_len(m as nat, 1);
        lemma_fixed_round_trip(m as nat, 1, rest);
    }
}

/// Decoding undoes encoding for `u16`.
pub proof fn lemma_u16_round_trips()
    ensures
        round_trips::<u16>(),
{
    assert forall|m: u16, rest: Seq<u8>| #[trigger]
        u16::decode(u16::encoding(m) + rest) == (Decoded {
            outcome: Ok(m),
            used: u16::encoding(m).len(),
        }) by {
        lemma_pow256_values();
        lemma_le_bytes_len(m as nat, 2);
        lemma_fixed_round_trip(m as nat, 2, rest);
    }
}

/// Decoding undoes encoding for `u32`.
pub proof fn lemma_u32_round_trips()
    ensures
        round_trips::<u32>(),
{
    assert forall|m: u32, rest: Seq<u8>| #[trigger]
        u32::decode(u32::encoding(m) + rest) == (Decoded {
            outcome: Ok(m),
            used: u32::encoding(m).len(),
        }) by {
        lemma_pow256_values();
        lemma_le_bytes_len(m as nat, 4);
        lemma_fixed_round_trip(m as nat, 4, rest);
    }
}

/// Decoding undoes encoding for `u64`.
pub proof fn lemma_u64_round_trips()
    ensures
        round_trips::<u64>(),
{
    assert forall|m: u64, rest: Seq<u8>| #[trigger]
        u64::decode(u64::encoding(m) + rest) == (Decoded {
            outcome: Ok(m),
            used: u64::encoding(m).len(),
        }) by {
        lemma_pow256_values();
        lemma_le_bytes_len(m as nat, 8);
        lemma_fixed_round_trip(m as nat, 8, rest);
    }
}

/// Decoding undoes encoding for `u128`.
pub proof fn lemma_u128_round_trips()
    ensures
        round_trips::<u128>(),
{
    assert forall|m: u128, rest: Seq<u8>| #[trigger]
        u128::decode(u128::encoding(m) + rest) == (Decoded {
            outcome: Ok(m),
            used: u128::encoding(m).len(),
        }) by {
        lemma_pow256_values();
        lemma_le_bytes_len(m as nat, 16);
        lemma_fixed_round_trip(m as nat, 16, rest);
    }
}

/// Decoding undoes encoding for `usize`.
pub proof fn lemma_usize_round_trips()
    ensures
        round_trips::<usize>(),
{
    assert forall|m: usize, rest: Seq<u8>| #[trigger]
        usize::decode(usize::encoding(m) + rest) == (Decoded {
            outcome: Ok(m),
            used: usize::encoding(m).len(),
        }) by {
        lemma_pow256_values();
        lemma_le_bytes_len(m as nat, 8);
        lemma_fixed_round_trip(m as nat, 8, rest);
    }
}

/// Decoding undoes encoding for `i8`.
pub proof fn lemma_i8_round_trips()
    ensures
        round_trips::<i8>(),
{
    assert forall|m: i8, rest: Seq<u8>| #[trigger]
        i8::decode(i8::encoding(m) + rest) == (Decoded {
            outcome: Ok(m),
            used: i8::encoding(m).len(),
        }) by {
        lemma_pow256_values();
        lemma_twos_complement_inverse(m as int, 1);
        lemma_le_bytes_len(twos_complement(m as int, 1), 1);
        lemma_fixed_round_trip(twos_complement(m as int, 1), 1, rest);
    }
}

/// Decoding undoes encoding for `i16`.
pub proof fn lemma_i16_round_trips()
    ensures
        round_trips::<i16>(),
{
    assert forall|m: i16, rest: Seq<u8>| #[trigger]
        i16::decode(i16::encoding(m) + rest) == (Decoded {
            outcome: Ok(m),
            used: i16::encoding(m).len(),
        }) by {
        lemma_pow256_values();
        lemma_twos_complement_inverse(m as int, 2);
        lemma_le_bytes_len(twos_complement(m as int, 2), 2);
        lemma_fixed_round_trip(twos_complement(m as int, 2), 2, rest);
    }
}

/// Decoding undoes encoding for `i32`.
pub proof fn lemma_i32_round_trips()
    ensures
        round_trips::<i32>(),
{
    assert forall|m: i32, rest: Seq<u8>| #[trigger]
        i32::decode(i32::encoding(m) + rest) == (Decoded {
            outcome: Ok(m),
            used: i32::encoding(m).len(),
        }) by {
        lemma_pow256_values();
        lemma_twos_complement_inverse(m as int, 4);
        lemma_le_bytes_len(twos_complement(m as int, 4), 4);
        lemma_fixed_round_trip(twos_complement(m as int, 4), 4, rest);
    }
}

/// Decoding undoes encoding for `i64`.
pub proof fn lemma_i64_round_trips()
    ensures
        round_trips::<i64>(),
{
    assert forall|m: i64, rest: Seq<u8>| #[trigger]
        i64::decode(i64::encoding(m) + rest) == (Decoded {
            outcome: Ok(m),
            used: i64::encoding(m).len(),
        }) by {
        lemma_pow256_values();
        lemma_twos_complement_inverse(m as int, 8);
        lemma_le_bytes_len(twos_complement(m as int, 8), 8);
        lemma_fixed_round_trip(twos_complement(m as int, 8), 8, rest);
    }
}

/// Decoding undoes encoding for `i128`.
pub proof fn lemma_i128_round_trips()
    ensures
        round_trips::<i128>(),
{
    assert forall|m: i128, rest: Seq<u8>| #[trigger]
        i128::decode(i128::encoding(m) + rest) == (Decoded {
            outcome: Ok(m),
            used: i128::encoding(m).len(),
        }) by {
        lemma_pow256_values();
        lemma_twos_complement_inverse(m as int, 16);
        lemma_le_bytes_len(twos_complement(m as int, 16), 16);
        lemma_fixed_round_trip(twos_complement(m as int, 16), 16, rest);
    }
}

/// Decoding undoes encoding for `isize`.
pub proof fn lemma_isize_round_trips()
    ensures
        round_trips::<isize>(),
{
    assert forall|m: isize, rest: Seq<u8>| #[trigger]
        isize::decode(isize::encoding(m) + rest) == (Decoded {
            outcome: Ok(m),
            used: isize::encoding(m).len(),
        }) by {
        lemma_pow256_values();
        lemma_twos_complement_inverse(m as int, 8);
        lemma_le_bytes_len(twos_complement(m as int, 8), 8);
        lemma_fixed_round_trip(twos_complement(m as int, 8), 8, rest);
    }
}

/// Decoding undoes encoding for `bool`.
pub proof fn lemma_bool_round_trips()
    ensures
        round_trips::<bool>(),
{
    assert forall|m: bool, rest: Seq<u8>| #[trigger]
        bool::decode(bool::encoding(m) + rest) == (Decoded {
            outcome: Ok(m),
            used: bool::encoding(m).len(),
        }) by {
        lemma_pow256_values();
        lemma_le_bytes_len(bool_byte(m) as nat, 1);
        lemma_fixed_round_trip(bool_byte(m) as nat, 1, rest);
    }
}

/// Decoding undoes encoding for `char`.
pub proof fn lemma_char_round_trips()
    ensures
        round_trips::<char>(),
{
    assert forall|m: char, rest: Seq<u8>| #[trigger]
        char::decode(char::encoding(m) + rest) == (Decoded {
            outcome: Ok(m),
            used: char::encoding(m).len(),
        }) by {
        lemma_pow256_values();
        char_is_scalar(m);
        char_u32_cast(m, m as u32);
        lemma_le_bytes_len(m as u32 as nat, 4);
        lemma_fixed_round_trip(m as u32 as nat, 4, rest);
    }
}

/// A number, boolean or character that is cut short is reported with the number of bytes
/// that were there.
pub proof fn lemma_fixed_width_truncation()
    ensures
        reports_truncation::<u8>(1),
        reports_truncation::<u16>(2),
        reports_truncation::<u32>(4),
        reports_truncation::<u64>(8),
        reports_truncation::<u128>(16),
        reports_truncation::<usize>(8),
        reports_truncation::<i8>(1),
        reports_truncation::<i16>(2),
        reports_truncation::<i32>(4),
        reports_truncation::<i64>(8),
        reports_truncation::<i128>(16),
        reports_truncation::<isize>(8),
        reports_truncation::<bool>(1),
        reports_truncation::<char>(4),
{
}

} // verus!
