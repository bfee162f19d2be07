use vstd::prelude::*;
use crate::bytes::{be_bytes, be_value, byte_modulus, lemma_be_round_trip, lemma_le_round_trip, le_bytes, le_value, u16_be, u16_le, u32_be, u32_le, u64_be, u64_le};
use crate::format::BinaryFormat;
use crate::ieee::{saturate_bits, saturated};

verus! {

/// What the binary encoder reads of a value to emit: the bit pattern of the
/// double, and the bit pattern of the same value rounded to single precision.
#[derive(Clone, Copy, Debug, PartialEq, Eq, Structural)]
pub struct WireValue {
    pub double_bits: u64,
    pub single_bits: u32,
}

/// The `w` lowest bytes of `n` in the given byte order.
pub open spec fn ordered_bytes(n: nat, w: nat, big_endian: bool) -> Seq<u8> {
    if big_endian {
        be_bytes(n, w)
    } else {
        le_bytes(n, w)
    }
}

/// Number of distinct values of an integer format.
pub open spec fn modulus(f: BinaryFormat) -> int {
    f.max_value() - f.min_value() + 1
}

/// The integer that an integer format holds for a double: rounded toward
/// zero and clamped to the format's range.
pub open spec fn integer_image(v: WireValue, f: BinaryFormat) -> int {
    saturated(v.double_bits, f.min_value(), f.max_value())
}

/// The bytes of a value in a format. Integers are stored in two's complement.
pub open spec fn encoding(v: WireValue, f: BinaryFormat) -> Seq<u8> {
    if f.is_float_spec() {
        if f.bits_spec() == 32 {
            ordered_bytes(v.single_bits as nat, 4, f.is_big_endian_spec())
        } else {
            ordered_bytes(v.double_bits as nat, 8, f.is_big_endian_spec())
        }
    } else {
        ordered_bytes(
            (integer_image(v, f) % modulus(f)) as nat,
            f.width_spec(),
            f.is_big_endian_spec(),
        )
    }
}

/// The number that bytes stand for, read in the given byte order.
pub open spec fn read_unsigned(s: Seq<u8>, big_endian: bool) -> nat {
    if big_endian {
        be_value(s)
    } else {
        le_value(s)
    }
}

/// The integer that bytes of an integer format stand for, two's complement
/// for the signed formats.
pub open spec fn decode_integer(s: Seq<u8>, f: BinaryFormat) -> int {
    let n = read_unsigned(s, f.is_big_endian_spec()) as int;
    if f.is_signed_spec() && n > f.max_value() {
        n - modulus(f)
    } else {
        n
    }
}

proof fn lemma_modulus(f: BinaryFormat)
    ensures
        byte_modulus(4) == 0x1_0000_0000,
        byte_modulus(8) == 0x1_0000_0000_0000_0000,
        !f.is_float_spec() ==> modulus(f) == byte_modulus(f.width_spec()),
        !f.is_float_spec() ==> f.min_value() <= 0 < f.max_value(),
{
    reveal_with_fuel(byte_modulus, 9);
}

/// Reading an encoded value back in the format's width and byte order gives
/// the bit pattern of a float format, and for an integer format the value
/// rounded toward zero and clamped to the format's range.
pub proof fn lemma_encoding_round_trip(v: WireValue, f: BinaryFormat)
    ensures
        encoding(v, f).len() == f.width_spec(),
        f.is_float_spec() && f.bits_spec() == 32 ==> read_unsigned(encoding(v, f), f.is_big_endian_spec())
            == v.single_bits,
        f.is_float_spec() && f.bits_spec() == 64 ==> read_unsigned(encoding(v, f), f.is_big_endian_spec())
            == v.double_bits,
        !f.is_float_spec() ==> decode_integer(encoding(v, f), f) == integer_image(v, f),
        !f.is_float_spec() ==> f.min_value() <= integer_image(v, f) <= f.max_value(),
{
    lemma_modulus(f);
    if f.is_float_spec() {
        if f.bits_spec() == 32 {
            lemma_le_round_trip(v.single_bits as nat, 4);
            lemma_be_round_trip(v.single_bits as nat, 4);
        } else {
            lemma_le_round_trip(v.double_bits as nat, 8);
            lemma_be_round_trip(v.double_bits as nat, 8);
        }
    } else {
        let m = modulus(f);
        let i = integer_image(v, f);
        let n = i % m;
        if i >= 0 {
            vstd::arithmetic::div_mod::lemma_small_mod(i as nat, m as nat);
        } else {
            vstd::arithmetic::div_mod::lemma_mod_add_multiples_vanish(i, m);
            vstd::arithmetic::div_mod::lemma_small_mod((i + m) as nat, m as nat);
        }
        lemma_le_round_trip(n as nat, f.width_spec());
        lemma_be_round_trip(n as nat, f.width_spec());
    }
}

/// The unsigned word that stores the integer image of `v` in `f`.
fn integer_word(v: &WireValue, f: BinaryFormat) -> (n: u64)
    requires
        !f.is_float_spec(),
    ensures
        n as int == integer_image(*v, f) % modulus(f),
        n < modulus(f),
{
    let (lo, hi) = f.integer_range();
    let s = saturate_bits(v.double_bits, lo, hi);
    if s < 0 {
        let n = s + (hi - lo + 1);
        proof {
            vstd::arithmetic::div_mod::lemma_mod_add_multiples_vanish(s as int, modulus(f));
            vstd::arithmetic::div_mod::lemma_small_mod(n as nat, modulus(f) as nat);
        }
        n as u64
    } else {
        proof {
            vstd::arithmetic::div_mod::lemma_small_mod(s as nat, modulus(f) as nat);
        }
        s as u64
    }
}

/// Encodes a value in a binary format: a float format stores the bit
/// pattern, an integer format the value rounded toward zero and saturated at
/// the format's range.
pub fn encode(v: &WireValue, f: BinaryFormat) -> (r: Vec<u8>)
    ensures
        r@ == encoding(*v, f),
        r@.len() == f.width_spec(),
{
    let r = match f {
        BinaryFormat::F32BE => u32_be(v.single_bits),
        BinaryFormat::F32LE => u32_le(v.single_bits),
        BinaryFormat::F64BE => u64_be(v.double_bits),
        BinaryFormat::F64LE => u64_le(v.double_bits),
        BinaryFormat::U8 | BinaryFormat::S8 => {
            let n = integer_word(v, f);
            let mut r: Vec<u8> = Vec::new();
            r.push(n as u8);
            proof {
                let w = le_bytes(n as nat, 1);
                assert(w == seq![(n as nat % 256) as u8] + le_bytes(n as nat / 256, 0));
                assert(r@ =~= le_bytes(n as nat, 1));
            }
            r
        },
        BinaryFormat::U16BE | BinaryFormat::S16BE => u16_be(integer_word(v, f) as u16),
        BinaryFormat::U16LE | BinaryFormat::S16LE => u16_le(integer_word(v, f) as u16),
        BinaryFormat::U32BE | BinaryFormat::S32BE => u32_be(integer_word(v, f) as u32),
        BinaryFormat::U32LE | BinaryFormat::S32LE => u32_le(integer_word(v, f) as u32),
        BinaryFormat::U64BE | BinaryFormat::S64BE => u64_be(integer_word(v, f)),
        BinaryFormat::U64LE | BinaryFormat::S64LE => u64_le(integer_word(v, f)),
    };
    proof {
        crate::bytes::lemma_bytes_len(f.width_spec());
    }
    r
}

} // verus!
