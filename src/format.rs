use vstd::prelude::*;
use vstd::string::StringSliceAdditionalSpecFns;

verus! {

/// One of the fixed-width binary encodings of an emitted value.
///
/// The name of each format is its variant's name in lower case
/// (`f32be`, `u8`, `s64le`, ...); `from_name` reads it in any case.
#[derive(Clone, Copy, Debug, PartialEq, Eq, Structural)]
pub enum BinaryFormat {
    F32BE,
    F32LE,
    F64BE,
    F64LE,
    U8,
    U16BE,
    U16LE,
    U32BE,
    U32LE,
    U64BE,
    U64LE,
    S8,
    S16BE,
    S16LE,
    S32BE,
    S32LE,
    S64BE,
    S64LE,
}

/// The letter that opens a format's name: an IEEE-754 float, an unsigned
/// or a signed (two's complement) integer.
#[derive(Clone, Copy, Debug, PartialEq, Eq, Structural)]
pub enum NumberKind {
    Float,
    Unsigned,
    Signed,
}

impl BinaryFormat {
    /// Number of bits of one encoded value.
    pub open spec fn bits_spec(self) -> nat {
        match self {
            BinaryFormat::U8 | BinaryFormat::S8 => 8,
            BinaryFormat::U16BE | BinaryFormat::U16LE | BinaryFormat::S16BE | BinaryFormat::S16LE => 16,
            BinaryFormat::F32BE | BinaryFormat::F32LE | BinaryFormat::U32BE | BinaryFormat::U32LE
            | BinaryFormat::S32BE | BinaryFormat::S32LE => 32,
            _ => 64,
        }
    }

    /// Number of bytes of one encoded value.
    pub open spec fn width_spec(self) -> nat {
        self.bits_spec() / 8
    }

    pub open spec fn is_float_spec(self) -> bool {
        match self {
            BinaryFormat::F32BE | BinaryFormat::F32LE | BinaryFormat::F64BE | BinaryFormat::F64LE => true,
            _ => false,
        }
    }

    pub open spec fn is_signed_spec(self) -> bool {
        match self {
            BinaryFormat::S8 | BinaryFormat::S16BE | BinaryFormat::S16LE | BinaryFormat::S32BE
            | BinaryFormat::S32LE | BinaryFormat::S64BE | BinaryFormat::S64LE => true,
            _ => false,
        }
    }

    /// Whether the most significant byte comes first. Single-byte formats
    /// have no byte order and count as little endian.
    pub open spec fn is_big_endian_spec(self) -> bool {
        match self {
            BinaryFormat::F32BE | BinaryFormat::F64BE | BinaryFormat::U16BE | BinaryFormat::U32BE
            | BinaryFormat::U64BE | BinaryFormat::S16BE | BinaryFormat::S32BE | BinaryFormat::S64BE => true,
            _ => false,
        }
    }

    /// Smallest integer an integer format can hold.
    pub open spec fn min_value(self) -> int {
        if !self.is_signed_spec() {
            0
        } else if self.bits_spec() == 8 {
            -0x80
        } else if self.bits_spec() == 16 {
            -0x8000
        } else if self.bits_spec() == 32 {
            -0x8000_0000
        } else {
            -0x8000_0000_0000_0000
        }
    }

    /// Largest integer an integer format can hold.
    pub open spec fn max_value(self) -> int {
        if self.is_signed_spec() {
            -self.min_value() - 1
        } else if self.bits_spec() == 8 {
            0xff
        } else if self.bits_spec() == 16 {
            0xffff
        } else if self.bits_spec() == 32 {
            0xffff_ffff
        } else {
            0xffff_ffff_ffff_ffff
        }
    }

    pub open spec fn kind_letter(self) -> u8 {
        if self.is_float_spec() {
            102u8
        } else if self.is_signed_spec() {
            115u8
        } else {
            117u8
        }
    }

    /// The format's name, as ASCII bytes in lower case.
    pub open spec fn name_spec(self) -> Seq<u8> {
        seq![self.kind_letter()] + bits_digits(self.bits_spec()) + if self.bits_spec() == 8 {
            Seq::<u8>::empty()
        } else if self.is_big_endian_spec() {
            seq![98u8, 101u8]
        } else {
            seq![108u8, 101u8]
        }
    }

    /// The format's name in lower case, as ASCII bytes.
    pub fn name(&self) -> (r: Vec<u8>)
        ensures
            r@ == self.name_spec(),
    {
        let mut r: Vec<u8> = Vec::new();
        match self.kind() {
            NumberKind::Float => r.push(102u8),
            NumberKind::Signed => r.push(115u8),
            NumberKind::Unsigned => r.push(117u8),
        }
        let bits = self.bits();
        if bits == 8 {
            r.push(56u8);
        } else if bits == 16 {
            r.push(49u8);
            r.push(54u8);
        } else if bits == 32 {
            r.push(51u8);
            r.push(50u8);
        } else {
            r.push(54u8);
            r.push(52u8);
        }
        if bits != 8 {
            if self.is_big_endian() {
                r.push(98u8);
            } else {
                r.push(108u8);
            }
            r.push(101u8);
        }
        assert(r@ == self.name_spec());
        r
    }

    /// Reads a format's name, ignoring the case of ASCII letters.
    pub fn from_name(s: &str) -> (r: Option<BinaryFormat>)
        ensures
            forall|f: BinaryFormat| r == Some(f) <==> lower_seq(s.spec_bytes()) == f.name_spec(),
    {
        let low = lower_bytes(s.as_bytes());
        let all = all_formats();
        let mut i: usize = 0;
        while i < all.len()
            invariant
                i <= all@.len(),
                low@ == lower_seq(s.spec_bytes()),
                forall|j: int| 0 <= j < i ==> all@[j].name_spec() != low@,
            decreases all@.len() - i,
        {
            let f = all[i];
            let n = f.name();
            if bytes_equal(low.as_slice(), n.as_slice()) {
                proof {
                    assert forall|g: BinaryFormat| (Some(f) == Some(g)) <==> low@ == g.name_spec() by {
                        if low@ == g.name_spec() {
                            lemma_names_distinct(f, g);
                        }
                    }
                }
                return Some(f);
            }
            i = i + 1;
        }
        assert forall|g: BinaryFormat| low@ != g.name_spec() by {
            assert(all@.contains(g));
        }
        None
    }

    pub fn bits(&self) -> (r: u32)
        ensures
            r == self.bits_spec(),
    {
        match self {
            BinaryFormat::U8 | BinaryFormat::S8 => 8,
            BinaryFormat::U16BE | BinaryFormat::U16LE | BinaryFormat::S16BE | BinaryFormat::S16LE => 16,
            BinaryFormat::F32BE | BinaryFormat::F32LE | BinaryFormat::U32BE | BinaryFormat::U32LE
            | BinaryFormat::S32BE | BinaryFormat::S32LE => 32,
            _ => 64,
        }
    }

    /// Number of bytes that one value takes in this format.
    pub fn width(&self) -> (r: usize)
        ensures
            r == self.width_spec(),
            r == 1 || r == 2 || r == 4 || r == 8,
    {
        (self.bits() / 8) as usize
    }

    pub fn kind(&self) -> (r: NumberKind)
        ensures
            r is Float <==> self.is_float_spec(),
            r is Signed <==> self.is_signed_spec(),
    {
        match self {
            BinaryFormat::F32BE | BinaryFormat::F32LE | BinaryFormat::F64BE | BinaryFormat::F64LE => NumberKind::Float,
            BinaryFormat::S8 | BinaryFormat::S16BE | BinaryFormat::S16LE | BinaryFormat::S32BE
            | BinaryFormat::S32LE | BinaryFormat::S64BE | BinaryFormat::S64LE => NumberKind::Signed,
            _ => NumberKind::Unsigned,
        }
    }

    /// Smallest and largest integer that an integer format can hold.
    pub fn integer_range(&self) -> (r: (i128, i128))
        requires
            !self.is_float_spec(),
        ensures
            r.0 == self.min_value(),
            r.1 == self.max_value(),
    {
        let bits = self.bits();
        match self.kind() {
            NumberKind::Signed => {
                if bits == 8 {
                    (-0x80, 0x7f)
                } else if bits == 16 {
                    (-0x8000, 0x7fff)
                } else if bits == 32 {
                    (-0x8000_0000, 0x7fff_ffff)
                } else {
                    (-0x8000_0000_0000_0000, 0x7fff_ffff_ffff_ffff)
                }
            },
            _ => {
                if bits == 8 {
                    (0, 0xff)
                } else if bits == 16 {
                    (0, 0xffff)
                } else if bits == 32 {
                    (0, 0xffff_ffff)
                } else {
                    (0, 0xffff_ffff_ffff_ffff)
                }
            },
        }
    }

    pub fn is_big_endian(&self) -> (r: bool)
        ensures
            r == self.is_big_endian_spec(),
    {
        match self {
            BinaryFormat::F32BE | BinaryFormat::F64BE | BinaryFormat::U16BE | BinaryFormat::U32BE
            | BinaryFormat::U64BE | BinaryFormat::S16BE | BinaryFormat::S32BE | BinaryFormat::S64BE => true,
            _ => false,
        }
    }
}

/// ASCII upper-case letters map to lower case; every other byte stays.
pub open spec fn ascii_lower(b: u8) -> u8 {
    if 65 <= b <= 90 {
        (b + 32) as u8
    } else {
        b
    }
}

pub open spec fn lower_seq(s: Seq<u8>) -> Seq<u8> {
    s.map_values(|b: u8| ascii_lower(b))
}

/// Two formats never share a name.
pub proof fn lemma_names_distinct(f: BinaryFormat, g: BinaryFormat)
    requires
        f.name_spec() == g.name_spec(),
    ensures
        f == g,
{
    let (a, b) = (f.name_spec(), g.name_spec());
    assert(a[0] == f.kind_letter() && b[0] == g.kind_letter());
    assert(a[1] == bits_digits(f.bits_spec())[0] && b[1] == bits_digits(g.bits_spec())[0]);
    assert(f.is_float_spec() == g.is_float_spec() && f.is_signed_spec() == g.is_signed_spec());
    assert(f.bits_spec() == g.bits_spec());
    if f.bits_spec() != 8 {
        assert(a[3] == b[3]);
        assert(f.is_big_endian_spec() == g.is_big_endian_spec());
    }
}

fn lower_bytes(s: &[u8]) -> (r: Vec<u8>)
    ensures
        r@ == lower_seq(s@),
{
    let mut r: Vec<u8> = Vec::new();
    let mut i: usize = 0;
    while i < s.len()
        invariant
            i <= s@.len(),
            r@ == lower_seq(s@.subrange(0, i as int)),
        decreases s@.len() - i,
    {
        let b = s[i];
        let l: u8 = if 65 <= b && b <= 90 { b + 32 } else { b };
        r.push(l);
        i = i + 1;
        assert(s@.subrange(0, i as int) == s@.subrange(0, (i - 1) as int).push(b));
    }
    assert(s@.subrange(0, s@.len() as int) == s@);
    r
}

fn bytes_equal(a: &[u8], b: &[u8]) -> (r: bool)
    ensures
        r == (a@ == b@),
{
    if a.len() != b.len() {
        return false;
    }
    let mut i: usize = 0;
    while i < a.len()
        invariant
            i <= a@.len(),
            a@.len() == b@.len(),
            forall|j: int| 0 <= j < i ==> a@[j] == b@[j],
        decreases a@.len() - i,
    {
        if a[i] != b[i] {
            return false;
        }
        i = i + 1;
    }
    assert(a@ == b@);
    true
}

/// Every format, each once.
pub fn all_formats() -> (r: Vec<BinaryFormat>)
    ensures
        r@.len() == 18,
        forall|f: BinaryFormat| r@.contains(f),
{
    let r: Vec<BinaryFormat> = vec![
        BinaryFormat::F32BE,
        BinaryFormat::F32LE,
        BinaryFormat::F64BE,
        BinaryFormat::F64LE,
        BinaryFormat::U8,
        BinaryFormat::U16BE,
        BinaryFormat::U16LE,
        BinaryFormat::U32BE,
        BinaryFormat::U32LE,
        BinaryFormat::U64BE,
        BinaryFormat::U64LE,
        BinaryFormat::S8,
        BinaryFormat::S16BE,
        BinaryFormat::S16LE,
        BinaryFormat::S32BE,
        BinaryFormat::S32LE,
        BinaryFormat::S64BE,
        BinaryFormat::S64LE,
    ];
    assert forall|f: BinaryFormat| r@.contains(f) by {
        let i: int = match f {
            BinaryFormat::F32BE => 0,
            BinaryFormat::F32LE => 1,
            BinaryFormat::F64BE => 2,
            BinaryFormat::F64LE => 3,
            BinaryFormat::U8 => 4,
            BinaryFormat::U16BE => 5,
            BinaryFormat::U16LE => 6,
            BinaryFormat::U32BE => 7,
            BinaryFormat::U32LE => 8,
            BinaryFormat::U64BE => 9,
            BinaryFormat::U64LE => 10,
            BinaryFormat::S8 => 11,
            BinaryFormat::S16BE => 12,
            BinaryFormat::S16LE => 13,
            BinaryFormat::S32BE => 14,
            BinaryFormat::S32LE => 15,
            BinaryFormat::S64BE => 16,
            BinaryFormat::S64LE => 17,
        };
        assert(r@[i] == f);
    }
    r
}

/// Decimal digits of a bit count of 8, 16, 32 or 64, as ASCII bytes.
pub open spec fn bits_digits(bits: nat) -> Seq<u8> {
    if bits == 8 {
        seq![56u8]
    } else if bits == 16 {
        seq![49u8, 54u8]
    } else if bits == 32 {
        seq![51u8, 50u8]
    } else {
        seq![54u8, 52u8]
    }
}

} // verus!
