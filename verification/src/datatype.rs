use vstd::arithmetic::power::pow;
use vstd::prelude::*;

verus! {

/// The byte order in which a multi-byte value is laid out in the buffer.
#[derive(Clone, Copy, PartialEq, Eq, Structural, Debug)]
pub enum Endianness {
    Big,
    Little,
}

/// Whether an integer datatype is interpreted in two's complement.
#[derive(Clone, Copy, PartialEq, Eq, Structural, Debug)]
pub enum Signedness {
    Unsigned,
    Signed,
}

/// A fixed-width numeric interpretation of a byte slice: an 8/16/32/64-bit
/// integer with a signedness, or a 32/64-bit floating-point bit pattern.
#[derive(Clone, Copy, PartialEq, Eq, Structural, Debug)]
pub enum Datatype {
    Integer8(Signedness),
    Integer16(Signedness),
    Integer32(Signedness),
    Integer64(Signedness),
    Float32,
    Float64,
}

/// The value that a byte sequence denotes when read least-significant byte
/// first.
pub open spec fn le_value(w: Seq<u8>) -> int
    decreases w.len(),
{
    if w.len() == 0 {
        0
    } else {
        w[0] + 0x100 * le_value(w.drop_first())
    }
}

/// The value that a byte sequence denotes when read most-significant byte
/// first.
pub open spec fn be_value(w: Seq<u8>) -> int
    decreases w.len(),
{
    if w.len() == 0 {
        0
    } else {
        0x100 * be_value(w.drop_last()) + w[w.len() - 1]
    }
}

/// The value of a byte sequence under the given byte order.
pub open spec fn num_value(endianness: Endianness, w: Seq<u8>) -> int {
    match endianness {
        Endianness::Little => le_value(w),
        Endianness::Big => be_value(w),
    }
}

/// The two's-complement reading of an unsigned value `v` of the width whose
/// sign bit has weight `half`: values from `half` upward wrap around to
/// negative.
pub open spec fn twos_complement(v: int, half: int) -> int {
    if v < half {
        v
    } else {
        v - 2 * half
    }
}

/// A decoded sample prior to any color mapping.  Integers carry their exact
/// value; floating-point datatypes carry the raw bit pattern of the stored
/// word, to be interpreted by the presentation layer.
#[derive(Clone, Copy, PartialEq, Eq, Structural, Debug)]
pub enum DecodedValue {
    Unsigned(u64),
    Signed(i64),
    Float32Bits(u32),
    Float64Bits(u64),
}

/// The decoded sample for an integer datatype whose sign bit has weight
/// `half`: the raw value itself when unsigned, its two's-complement reading
/// when signed.
pub open spec fn spec_int_value(v: int, half: int, signedness: Signedness) -> DecodedValue {
    match signedness {
        Signedness::Unsigned => DecodedValue::Unsigned(v as u64),
        Signedness::Signed => DecodedValue::Signed(twos_complement(v, half) as i64),
    }
}

impl Datatype {
    /// The number of bytes a value of this datatype occupies.
    pub open spec fn spec_size(self) -> int {
        match self {
            Datatype::Integer8(_) => 1,
            Datatype::Integer16(_) => 2,
            Datatype::Integer32(_) => 4,
            Datatype::Integer64(_) => 8,
            Datatype::Float32 => 4,
            Datatype::Float64 => 8,
        }
    }

    /// What `read_value_from` returns: no value unless the slice length
    /// matches the datatype size exactly, else the decoded sample.  The byte
    /// order affects every multi-byte datatype; signedness affects only the
    /// integer ones.
    pub open spec fn spec_read(self, w: Seq<u8>, endianness: Endianness) -> Option<DecodedValue> {
        if w.len() != self.spec_size() {
            None
        } else {
            let v = num_value(endianness, w);
            match self {
                Datatype::Integer8(s) => Some(spec_int_value(v, 0x80, s)),
                Datatype::Integer16(s) => Some(spec_int_value(v, 0x8000, s)),
                Datatype::Integer32(s) => Some(spec_int_value(v, 0x8000_0000, s)),
                Datatype::Integer64(s) => Some(spec_int_value(v, 0x8000_0000_0000_0000, s)),
                Datatype::Float32 => Some(DecodedValue::Float32Bits(v as u32)),
                Datatype::Float64 => Some(DecodedValue::Float64Bits(v as u64)),
            }
        }
    }

    pub fn size(&self) -> (n: usize)
        ensures
            n == self.spec_size(),
    {
        match self {
            Datatype::Integer8(_) => 1,
            Datatype::Integer16(_) => 2,
            Datatype::Integer32(_) => 4,
            Datatype::Integer64(_) => 8,
            Datatype::Float32 => 4,
            Datatype::Float64 => 8,
        }
    }

    /// Interprets `slice` as a value of this datatype under the given byte
    /// order.  Fails (with no value) iff the slice length differs from
    /// `size()`; the decoders do not trust the caller to have checked.
    pub fn read_value_from(&self, slice: &[u8], endianness: Endianness) -> (r: Option<
        DecodedValue,
    >)
        ensures
            r == self.spec_read(slice@, endianness),
    {
        if slice.len() != self.size() {
            return None;
        }
        let raw: u64 = match endianness {
            Endianness::Little => u64_from_le_slice(slice),
            Endianness::Big => u64_from_be_slice(slice),
        };
        proof {
            match endianness {
                Endianness::Little => lemma_le_value_bound(slice@),
                Endianness::Big => lemma_be_value_bound(slice@),
            }
            lemma_pow256_values();
            vstd::arithmetic::power::lemma_pow_increases(256, slice@.len(), 8);
        }
        Some(
            match self {
                Datatype::Integer8(s) => int_value(raw, 0x80, *s),
                Datatype::Integer16(s) => int_value(raw, 0x8000, *s),
                Datatype::Integer32(s) => int_value(raw, 0x8000_0000, *s),
                Datatype::Integer64(s) => int_value(raw, 0x8000_0000_0000_0000, *s),
                Datatype::Float32 => DecodedValue::Float32Bits(raw as u32),
                Datatype::Float64 => DecodedValue::Float64Bits(raw),
            },
        )
    }
}

/// Converts the raw unsigned value of a width whose sign bit has weight
/// `half` into the decoded sample for that width.
fn int_value(raw: u64, half: u64, signedness: Signedness) -> (r: DecodedValue)
    requires
        half == 0x80 || half == 0x8000 || half == 0x8000_0000 || half == 0x8000_0000_0000_0000,
        raw < 2 * half || half == 0x8000_0000_0000_0000,
    ensures
        r == spec_int_value(raw as int, half as int, signedness),
{
    match signedness {
        Signedness::Unsigned => DecodedValue::Unsigned(raw),
        Signedness::Signed => {
            if raw < half {
                DecodedValue::Signed(raw as i64)
            } else if half == 0x8000_0000_0000_0000 {
                DecodedValue::Signed(-1 - ((u64::MAX - raw) as i64))
            } else {
                DecodedValue::Signed((raw as i64) - (half as i64) - (half as i64))
            }
        },
    }
}

/// The powers of 256 that fixed-width decoding reasons about.
pub proof fn lemma_pow256_values()
    ensures
        pow(256, 0) == 1,
        pow(256, 1) == 0x100,
        pow(256, 2) == 0x1_0000,
        pow(256, 3) == 0x100_0000,
        pow(256, 4) == 0x1_0000_0000,
        pow(256, 8) == 0x1_0000_0000_0000_0000,
{
    reveal_with_fuel(pow, 9);
    assert(pow(256, 2) == 0x1_0000);
    assert(pow(256, 4) == 0x1_0000_0000);
    assert(pow(256, 8) == 0x1_0000_0000_0000_0000);
}

/// The value of a little-endian byte sequence is below 256 to the power of
/// its length.
pub proof fn lemma_le_value_bound(w: Seq<u8>)
    ensures
        0 <= le_value(w) < pow(256, w.len()),
    decreases w.len(),
{
    reveal_with_fuel(pow, 2);
    if w.len() == 0 {
    } else {
        lemma_le_value_bound(w.drop_first());
    }
}

/// The value of a big-endian byte sequence is below 256 to the power of its
/// length.
pub proof fn lemma_be_value_bound(w: Seq<u8>)
    ensures
        0 <= be_value(w) < pow(256, w.len()),
    decreases w.len(),
{
    reveal_with_fuel(pow, 2);
    if w.len() == 0 {
    } else {
        lemma_be_value_bound(w.drop_last());
    }
}

/// Reads at most eight bytes as a little-endian unsigned integer.
pub fn u64_from_le_slice(s: &[u8]) -> (r: u64)
    requires
        s@.len() <= 8,
    ensures
        r == le_value(s@),
{
    proof {
        lemma_pow256_values();
    }
    let n = s.len();
    let mut acc: u64 = 0;
    let mut j: usize = n;
    while j > 0
        invariant
            j <= n,
            n == s@.len() <= 8,
            acc == le_value(s@.skip(j as int)),
            0 <= le_value(s@.skip(j as int)) < pow(256, (n - j) as nat),
            pow(256, 8nat) == 0x1_0000_0000_0000_0000,
        decreases j,
    {
        let b = *vstd::slice::slice_index_get(s, j - 1);
        proof {
            assert(s@.skip(j - 1).drop_first() =~= s@.skip(j as int));
            lemma_le_value_bound(s@.skip(j - 1));
            vstd::arithmetic::power::lemma_pow_increases(256, (n - j + 1) as nat, 8);
        }
        acc = acc * 0x100 + (b as u64);
        j = j - 1;
    }
    proof {
        assert(s@.skip(0) =~= s@);
    }
    acc
}

/// Reads at most eight bytes as a big-endian unsigned integer.
pub fn u64_from_be_slice(s: &[u8]) -> (r: u64)
    requires
        s@.len() <= 8,
    ensures
        r == be_value(s@),
{
    proof {
        lemma_pow256_values();
    }
    let n = s.len();
    let mut acc: u64 = 0;
    let mut i: usize = 0;
    while i < n
        invariant
            i <= n,
            n == s@.len() <= 8,
            acc == be_value(s@.take(i as int)),
            0 <= be_value(s@.take(i as int)) < pow(256, i as nat),
            pow(256, 8nat) == 0x1_0000_0000_0000_0000,
        decreases n - i,
    {
        let b = *vstd::slice::slice_index_get(s, i);
        proof {
            assert(s@.take(i + 1).drop_last() =~= s@.take(i as int));
            lemma_be_value_bound(s@.take(i + 1));
            vstd::arithmetic::power::lemma_pow_increases(256, (i + 1) as nat, 8);
        }
        acc = acc * 0x100 + (b as u64);
        i = i + 1;
    }
    proof {
        assert(s@.take(n as int) =~= s@);
    }
    acc
}

} // verus!
