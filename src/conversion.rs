//! Decoding of packed bit sequences into integers.
use vstd::arithmetic::power2::{lemma2_to64, lemma_pow2_unfold, pow2};
use vstd::prelude::*;

verus! {

/// Why a bit sequence, or a floating value, could not be converted.
#[derive(Debug, Clone, Copy, PartialEq, Eq, Structural)]
pub enum ConversionError {
    /// Fewer elements than the `needed` ones were supplied.
    InsufficientBits { needed: usize },
    /// An element where a bit was expected is neither 0 nor 1.
    InvalidBitValue,
    /// A negative value cannot be held by an unsigned fixed-point number.
    Underflow,
    /// A scaled value exceeds the largest unsigned 32-bit number.
    Overflow,
}

/// Number of elements read for one byte.
pub const BYTE_BITS: usize = 8;

/// Number of elements read for a triplet of bytes.
pub const TRIPLET_BITS: usize = 24;

/// The text that describes an error.
pub open spec fn error_message(e: ConversionError) -> &'static str {
    match e {
        ConversionError::InsufficientBits { needed } => if needed == BYTE_BITS {
            "Not enough bits to create a u32 from the first 8 bits."
        } else {
            "Not enough bits to create u32 values for x, y, and z."
        },
        ConversionError::InvalidBitValue => "Invalid bit value; bits must be 0 or 1.",
        ConversionError::Underflow => "Underflow: value is too small for u32",
        ConversionError::Overflow => "Overflow: value is too large for u32",
    }
}

impl ConversionError {
    /// A human-readable description of the error.
    pub fn message(&self) -> (r: &'static str)
        ensures
            r == error_message(*self),
    {
        match self {
            ConversionError::InsufficientBits { needed } => if *needed == BYTE_BITS {
                "Not enough bits to create a u32 from the first 8 bits."
            } else {
                "Not enough bits to create u32 values for x, y, and z."
            },
            ConversionError::InvalidBitValue => "Invalid bit value; bits must be 0 or 1.",
            ConversionError::Underflow => "Underflow: value is too small for u32",
            ConversionError::Overflow => "Overflow: value is too large for u32",
        }
    }
}

/// A valid bit is 0 or 1.
pub open spec fn is_bit(b: u32) -> bool {
    b == 0 || b == 1
}

/// All of the first `n` elements are bits.
pub open spec fn all_bits(bits: Seq<u32>, n: int) -> bool {
    forall|i: int| 0 <= i < n ==> is_bit(#[trigger] bits[i])
}

/// The number whose binary digits, most significant first, are the first `n`
/// elements of `bits`.
pub open spec fn bits_value(bits: Seq<u32>, n: nat) -> nat
    decreases n,
{
    if n == 0 {
        0
    } else {
        2 * bits_value(bits, (n - 1) as nat) + bits[n - 1] as nat
    }
}

/// What decoding the first eight elements of `bits` yields.
pub open spec fn byte_result(bits: Seq<u32>) -> Result<u32, ConversionError> {
    if bits.len() < BYTE_BITS {
        Err(ConversionError::InsufficientBits { needed: BYTE_BITS })
    } else if !all_bits(bits, BYTE_BITS as int) {
        Err(ConversionError::InvalidBitValue)
    } else {
        Ok(bits_value(bits, BYTE_BITS as nat) as u32)
    }
}

/// What decoding the three bytes at the front of `bits` yields.
pub open spec fn triplet_result(bits: Seq<u32>) -> Result<(u32, u32, u32), ConversionError> {
    if bits.len() < TRIPLET_BITS {
        Err(ConversionError::InsufficientBits { needed: TRIPLET_BITS })
    } else if !all_bits(bits, TRIPLET_BITS as int) {
        Err(ConversionError::InvalidBitValue)
    } else {
        Ok(
            (
                bits_value(bits.subrange(0, 8), 8) as u32,
                bits_value(bits.subrange(8, 16), 8) as u32,
                bits_value(bits.subrange(16, 24), 8) as u32,
            ),
        )
    }
}

/// Packs the first eight elements of `bits`, the first one as the most
/// significant, into a number below 256.
pub fn bits_to_u32(bits: &[u32]) -> (r: Result<u32, ConversionError>)
    ensures
        r == byte_result(bits@),
        r is Ok ==> r->Ok_0 < 256,
{
    if bits.len() < BYTE_BITS {
        return Err(ConversionError::InsufficientBits { needed: BYTE_BITS });
    }
    let mut x: u32 = 0;
    let mut i: usize = 0;
    proof {
        lemma2_to64();
    }
    while i < BYTE_BITS
        invariant
            i <= BYTE_BITS <= bits@.len(),
            all_bits(bits@, i as int),
            x == bits_value(bits@, i as nat),
            x < pow2(i as nat),
        decreases BYTE_BITS - i,
    {
        let item = bits[i];
        if item != 0 && item != 1 {
            return Err(ConversionError::InvalidBitValue);
        }
        proof {
            lemma_pow2_unfold((i + 1) as nat);
            lemma2_to64();
        }
        x = 2 * x + item;
        i = i + 1;
    }
    proof {
        lemma2_to64();
    }
    Ok(x)
}

/// Packs the three bytes held by the first 24 elements of `bits`; the
/// elements after them are ignored.
pub fn bits_to_u32_triplet(bits: &[u32]) -> (r: Result<(u32, u32, u32), ConversionError>)
    ensures
        r == triplet_result(bits@),
        r is Ok ==> r->Ok_0.0 < 256 && r->Ok_0.1 < 256 && r->Ok_0.2 < 256,
{
    if bits.len() < TRIPLET_BITS {
        return Err(ConversionError::InsufficientBits { needed: TRIPLET_BITS });
    }
    let ghost b = bits@;
    assert(all_bits(b, 24) <==> (all_bits(b.subrange(0, 8), 8) && all_bits(b.subrange(8, 16), 8)
        && all_bits(b.subrange(16, 24), 8))) by {
        if all_bits(b.subrange(0, 8), 8) && all_bits(b.subrange(8, 16), 8) && all_bits(
            b.subrange(16, 24),
            8,
        ) {
            assert forall|i: int| 0 <= i < 24 implies is_bit(#[trigger] b[i]) by {
                if i < 8 {
                    assert(b.subrange(0, 8)[i] == b[i]);
                } else if i < 16 {
                    assert(b.subrange(8, 16)[i - 8] == b[i]);
                } else {
                    assert(b.subrange(16, 24)[i - 16] == b[i]);
                }
            }
        }
    }
    let x: u32 = bits_to_u32(&bits[0..8])?;
    let y: u32 = bits_to_u32(&bits[8..16])?;
    let z: u32 = bits_to_u32(&bits[16..24])?;
    Ok((x, y, z))
}

/// Decoding a byte fails for want of bits on every sequence shorter than
/// eight, and, on a long enough one, for a bad bit whenever one of the first
/// eight elements is neither 0 nor 1.
pub proof fn lemma_byte_errors(bits: Seq<u32>)
    ensures
        bits.len() < 8 ==> byte_result(bits) == Err::<u32, ConversionError>(
            ConversionError::InsufficientBits { needed: BYTE_BITS },
        ),
        bits.len() >= 8 && (exists|i: int| 0 <= i < 8 && !is_bit(#[trigger] bits[i]))
            ==> byte_result(bits) == Err::<u32, ConversionError>(ConversionError::InvalidBitValue),
{
}

} // verus!
