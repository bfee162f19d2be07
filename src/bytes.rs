use vstd::prelude::*;

verus! {

/// The `w` lowest bytes of `n`, least significant first.
pub open spec fn le_bytes(n: nat, w: nat) -> Seq<u8>
    decreases w,
{
    if w == 0 {
        Seq::empty()
    } else {
        seq![(n % 256) as u8] + le_bytes(n / 256, (w - 1) as nat)
    }
}

/// The `w` lowest bytes of `n`, most significant first.
pub open spec fn be_bytes(n: nat, w: nat) -> Seq<u8> {
    le_bytes(n, w).reverse()
}

/// The number whose bytes, least significant first, are `s`.
pub open spec fn le_value(s: Seq<u8>) -> nat
    decreases s.len(),
{
    if s.len() == 0 {
        0
    } else {
        s[0] as nat + 256 * le_value(s.subrange(1, s.len() as int))
    }
}

/// The number whose bytes, most significant first, are `s`.
pub open spec fn be_value(s: Seq<u8>) -> nat {
    le_value(s.reverse())
}

pub open spec fn byte_modulus(w: nat) -> nat
    decreases w,
{
    if w == 0 {
        1
    } else {
        256 * byte_modulus((w - 1) as nat)
    }
}

/// A number written in `w` bytes takes `w` bytes.
pub proof fn lemma_bytes_len(w: nat)
    ensures
        forall|n: nat| #[trigger] le_bytes(n, w).len() == w,
        forall|n: nat| #[trigger] be_bytes(n, w).len() == w,
    decreases w,
{
    if w > 0 {
        lemma_bytes_len((w - 1) as nat);
        assert forall|n: nat| #[trigger] le_bytes(n, w).len() == w by {
            assert(le_bytes(n / 256, (w - 1) as nat).len() == w - 1);
        }
    }
}

/// Reading back the bytes of a number that fits gives the number.
pub proof fn lemma_le_round_trip(n: nat, w: nat)
    requires
        n < byte_modulus(w),
    ensures
        le_bytes(n, w).len() == w,
        le_value(le_bytes(n, w)) == n,
    decreases w,
{
    if w > 0 {
        assert(n / 256 < byte_modulus((w - 1) as nat)) by (nonlinear_arith)
            requires
                n < 256 * byte_modulus((w - 1) as nat),
        ;
        lemma_le_round_trip(n / 256, (w - 1) as nat);
        let s = le_bytes(n, w);
        assert(s.subrange(1, s.len() as int) == le_bytes(n / 256, (w - 1) as nat));
    }
}

pub proof fn lemma_be_round_trip(n: nat, w: nat)
    requires
        n < byte_modulus(w),
    ensures
        be_bytes(n, w).len() == w,
        be_value(be_bytes(n, w)) == n,
{
    lemma_le_round_trip(n, w);
    assert(be_bytes(n, w).reverse() == le_bytes(n, w));
}

/// Relies on byteorder's `BigEndian::write_u16`: the bytes of `n`, most significant first.
#[verifier::external_body]
pub(crate) fn u16_be(n: u16) -> (r: Vec<u8>)
    ensures
        r@ == be_bytes(n as nat, 2),
{
    let mut buf = [0u8; 2];
    <byteorder::BigEndian as byteorder::ByteOrder>::write_u16(&mut buf, n);
    buf.to_vec()
}

/// Relies on byteorder's `LittleEndian::write_u16`: the bytes of `n`, least significant first.
#[verifier::external_body]
pub(crate) fn u16_le(n: u16) -> (r: Vec<u8>)
    ensures
        r@ == le_bytes(n as nat, 2),
{
    let mut buf = [0u8; 2];
    <byteorder::LittleEndian as byteorder::ByteOrder>::write_u16(&mut buf, n);
    buf.to_vec()
}

/// Relies on byteorder's `BigEndian::write_u32`: the bytes of `n`, most significant first.
#[verifier::external_body]
pub(crate) fn u32_be(n: u32) -> (r: Vec<u8>)
    ensures
        r@ == be_bytes(n as nat, 4),
{
    let mut buf = [0u8; 4];
    <byteorder::BigEndian as byteorder::ByteOrder>::write_u32(&mut buf, n);
    buf.to_vec()
}

/// Relies on byteorder's `LittleEndian::write_u32`: the bytes of `n`, least significant first.
#[verifier::external_body]
pub(crate) fn u32_le(n: u32) -> (r: Vec<u8>)
    ensures
        r@ == le_bytes(n as nat, 4),
{
    let mut buf = [0u8; 4];
    <byteorder::LittleEndian as byteorder::ByteOrder>::write_u32(&mut buf, n);
    buf.to_vec()
}

/// Relies on byteorder's `BigEndian::write_u64`: the bytes of `n`, most significant first.
#[verifier::external_body]
pub(crate) fn u64_be(n: u64) -> (r: Vec<u8>)
    ensures
        r@ == be_bytes(n as nat, 8),
{
    let mut buf = [0u8; 8];
    <byteorder::BigEndian as byteorder::ByteOrder>::write_u64(&mut buf, n);
    buf.to_vec()
}

/// Relies on byteorder's `LittleEndian::write_u64`: the bytes of `n`, least significant first.
#[verifier::external_body]
pub(crate) fn u64_le(n: u64) -> (r: Vec<u8>)
    ensures
        r@ == le_bytes(n as nat, 8),
{
    let mut buf = [0u8; 8];
    <byteorder::LittleEndian as byteorder::ByteOrder>::write_u64(&mut buf, n);
    buf.to_vec()
}

} // verus!
