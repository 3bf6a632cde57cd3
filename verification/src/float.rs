//! Numbers in binary floating point, as bit patterns.
//!
//! The codec carries such a number as the bits of its IEEE 754 encoding: a
//! sign bit, a biased exponent, and a fraction. A number of half or single
//! precision is widened to double precision without loss; a number of double
//! precision is narrowed only where a narrower pattern widens back to exactly
//! the same bits.
//!
//! In every width the exponent field of all ones marks the infinities
//! (fraction zero) and the NaNs, whose fraction is carried over bit by bit.
//! The exponent field zero marks the zeros and the subnormal numbers, whose
//! fraction has no implicit leading one; a subnormal number of a narrower
//! width is a normal number of double precision, so its fraction is shifted
//! up to its leading one. Every other exponent field marks a normal number.

use vstd::prelude::*;
use crate::error::DecodeError;
use crate::item::{Item, ItemView};

verus! {

/// How far the fraction of a subnormal number of single precision is shifted
/// until its leading one stands at bit 23, the place of the implicit one.
pub open spec fn single_shift(fraction: u64) -> u64 {
    let n16: u64 = if fraction < 0x100 {
        16
    } else {
        0
    };
    let at16: u64 = fraction << n16;
    let n8: u64 = if at16 < 0x1_0000 {
        8
    } else {
        0
    };
    let at8: u64 = at16 << n8;
    let n4: u64 = if at8 < 0x10_0000 {
        4
    } else {
        0
    };
    let at4: u64 = at8 << n4;
    let n2: u64 = if at4 < 0x40_0000 {
        2
    } else {
        0
    };
    let at2: u64 = at4 << n2;
    let n1: u64 = if at2 < 0x80_0000 {
        1
    } else {
        0
    };
    (n16 | n8 | n4 | n2 | n1)
}

/// How far the fraction of a subnormal number of half precision is shifted
/// until its leading one stands at bit 10, the place of the implicit one.
pub open spec fn half_shift(fraction: u64) -> u64 {
    let n8: u64 = if fraction < 0x8 {
        8
    } else {
        0
    };
    let at8: u64 = fraction << n8;
    let n4: u64 = if at8 < 0x80 {
        4
    } else {
        0
    };
    let at4: u64 = at8 << n4;
    let n2: u64 = if at4 < 0x200 {
        2
    } else {
        0
    };
    let at2: u64 = at4 << n2;
    let n1: u64 = if at2 < 0x400 {
        1
    } else {
        0
    };
    (n8 | n4 | n2 | n1)
}

/// The bits of the number of double precision that equals the number of
/// single precision with the given bits.
///
/// The sign is kept. An exponent field `e` from 1 to 254 (bias 127) becomes
/// `e + 896` (bias 1023), and the 23 bits of the fraction become the high bits
/// of the 52. A subnormal number `f * 2^-149` has its leading one shifted to
/// the place of the implicit one, by `n` bits, and the exponent field `897 - n`.
pub open spec fn widen_single(bits: u32) -> u64 {
    let wide: u64 = bits as u64;
    let sign: u64 = (wide >> 31) << 63;
    let exponent: u64 = (wide >> 23) & 0xFF;
    let fraction: u64 = wide & 0x7F_FFFF;
    if exponent == 0xFF {
        sign | 0x7FF0_0000_0000_0000 | (fraction << 29)
    } else if exponent != 0 {
        sign | (((exponent + 896) as u64) << 52) | (fraction << 29)
    } else if fraction == 0 {
        sign
    } else {
        let n: u64 = single_shift(fraction);
        sign | (((897 - n) as u64) << 52) | (((fraction << n) & 0x7F_FFFF) << 29)
    }
}

/// The bits of the number of double precision that equals the number of half
/// precision with the given bits.
///
/// The sign is kept. An exponent field `e` from 1 to 30 (bias 15) becomes
/// `e + 1008` (bias 1023), and the 10 bits of the fraction become the high
/// bits of the 52. A subnormal number `f * 2^-24` has its leading one shifted
/// to the place of the implicit one, by `n` bits, and the exponent field
/// `1009 - n`.
pub open spec fn widen_half(bits: u16) -> u64 {
    let wide: u64 = bits as u64;
    let sign: u64 = (wide >> 15) << 63;
    let exponent: u64 = (wide >> 10) & 0x1F;
    let fraction: u64 = wide & 0x3FF;
    if exponent == 0x1F {
        sign | 0x7FF0_0000_0000_0000 | (fraction << 42)
    } else if exponent != 0 {
        sign | (((exponent + 1008) as u64) << 52) | (fraction << 42)
    } else if fraction == 0 {
        sign
    } else {
        let n: u64 = half_shift(fraction);
        sign | (((1009 - n) as u64) << 52) | (((fraction << n) & 0x3FF) << 42)
    }
}

/// The only bits of single precision that can widen to the given bits of
/// double precision: the sign, the exponent moved back to the bias 127, and
/// the high bits of the fraction, whatever the low bits are.
pub open spec fn single_candidate(bits: u64) -> u32 {
    let sign: u64 = (bits >> 63) << 31;
    let exponent: u64 = (bits >> 52) & 0x7FF;
    let fraction: u64 = bits & 0xF_FFFF_FFFF_FFFF;
    if exponent == 0x7FF {
        (sign | 0x7F80_0000 | (fraction >> 29)) as u32
    } else if exponent >= 897 && exponent <= 1150 {
        (sign | (((exponent - 896) as u64) << 23) | (fraction >> 29)) as u32
    } else if exponent >= 874 && exponent <= 896 {
        (sign | ((fraction | 0x10_0000_0000_0000) >> ((926 - exponent) as u64))) as u32
    } else {
        sign as u32
    }
}

/// The only bits of half precision that can widen to the given bits of double
/// precision.
pub open spec fn half_candidate(bits: u64) -> u16 {
    let sign: u64 = (bits >> 63) << 15;
    let exponent: u64 = (bits >> 52) & 0x7FF;
    let fraction: u64 = bits & 0xF_FFFF_FFFF_FFFF;
    if exponent == 0x7FF {
        (sign | 0x7C00 | (fraction >> 42)) as u16
    } else if exponent >= 1009 && exponent <= 1038 {
        (sign | (((exponent - 1008) as u64) << 10) | (fraction >> 42)) as u16
    } else if exponent >= 999 && exponent <= 1008 {
        (sign | ((fraction | 0x10_0000_0000_0000) >> ((1051 - exponent) as u64))) as u16
    } else {
        sign as u16
    }
}

/// Whether the number of double precision is one of single precision: some
/// bits of single precision widen to exactly its bits.
pub open spec fn fits_single(bits: u64) -> bool {
    widen_single(single_candidate(bits)) == bits
}

/// Whether the number of double precision is one of half precision.
pub open spec fn fits_half(bits: u64) -> bool {
    widen_half(half_candidate(bits)) == bits
}

/// Widening loses nothing: the bits of single precision are found again from
/// what they widen to.
pub proof fn lemma_single_found_again(bits: u32)
    by (bit_vector)
    ensures
        single_candidate(widen_single(bits)) == bits,
{
}

/// Widening loses nothing: the bits of half precision are found again from
/// what they widen to.
pub proof fn lemma_half_found_again(bits: u16)
    by (bit_vector)
    ensures
        half_candidate(widen_half(bits)) == bits,
{
}

/// A number of double precision is one of single precision exactly where
/// some bits of single precision widen to it, and then only those that were
/// tried do.
pub proof fn lemma_fits_single(bits: u64)
    ensures
        fits_single(bits) <==> exists|narrow: u32| widen_single(narrow) == bits,
        forall|narrow: u32| widen_single(narrow) == bits ==> narrow == single_candidate(bits),
{
    assert forall|narrow: u32| widen_single(narrow) == bits implies narrow == single_candidate(
        bits,
    ) by {
        lemma_single_found_again(narrow);
    }
}

/// A number of double precision is one of half precision exactly where some
/// bits of half precision widen to it, and then only those that were tried do.
pub proof fn lemma_fits_half(bits: u64)
    ensures
        fits_half(bits) <==> exists|narrow: u16| widen_half(narrow) == bits,
        forall|narrow: u16| widen_half(narrow) == bits ==> narrow == half_candidate(bits),
{
    assert forall|narrow: u16| widen_half(narrow) == bits implies narrow == half_candidate(
        bits,
    ) by {
        lemma_half_found_again(narrow);
    }
}

/// Computes [single_shift].
fn shift_of_single(fraction: u64) -> (n: u64)
    ensures
        n == single_shift(fraction),
        n <= 31,
{
    let n16: u64 = if fraction < 0x100 {
        16
    } else {
        0
    };
    let at16: u64 = fraction << n16;
    let n8: u64 = if at16 < 0x1_0000 {
        8
    } else {
        0
    };
    let at8: u64 = at16 << n8;
    let n4: u64 = if at8 < 0x10_0000 {
        4
    } else {
        0
    };
    let at4: u64 = at8 << n4;
    let n2: u64 = if at4 < 0x40_0000 {
        2
    } else {
        0
    };
    let at2: u64 = at4 << n2;
    let n1: u64 = if at2 < 0x80_0000 {
        1
    } else {
        0
    };
    let n: u64 = n16 | n8 | n4 | n2 | n1;
    assert(n <= 31) by (bit_vector)
        requires
            n == n16 | n8 | n4 | n2 | n1,
            n16 == 16 || n16 == 0,
            n8 == 8 || n8 == 0,
            n4 == 4 || n4 == 0,
            n2 == 2 || n2 == 0,
            n1 == 1 || n1 == 0,
    ;
    n
}

/// Computes [half_shift].
fn shift_of_half(fraction: u64) -> (n: u64)
    ensures
        n == half_shift(fraction),
        n <= 15,
{
    let n8: u64 = if fraction < 0x8 {
        8
    } else {
        0
    };
    let at8: u64 = fraction << n8;
    let n4: u64 = if at8 < 0x80 {
        4
    } else {
        0
    };
    let at4: u64 = at8 << n4;
    let n2: u64 = if at4 < 0x200 {
        2
    } else {
        0
    };
    let at2: u64 = at4 << n2;
    let n1: u64 = if at2 < 0x400 {
        1
    } else {
        0
    };
    let n: u64 = n8 | n4 | n2 | n1;
    assert(n <= 15) by (bit_vector)
        requires
            n == n8 | n4 | n2 | n1,
            n8 == 8 || n8 == 0,
            n4 == 4 || n4 == 0,
            n2 == 2 || n2 == 0,
            n1 == 1 || n1 == 0,
    ;
    n
}

/// Widens a number of single precision to double precision.
pub fn single_to_double(bits: u32) -> (wide: u64)
    ensures
        wide == widen_single(bits),
{
    let wide: u64 = bits as u64;
    let sign: u64 = (wide >> 31) << 63;
    let exponent: u64 = (wide >> 23) & 0xFF;
    let fraction: u64 = wide & 0x7F_FFFF;
    assert(exponent <= 0xFF) by (bit_vector)
        requires
            exponent == (wide >> 23) & 0xFF,
    ;
    if exponent == 0xFF {
        sign | 0x7FF0_0000_0000_0000 | (fraction << 29)
    } else if exponent != 0 {
        sign | ((exponent + 896) << 52) | (fraction << 29)
    } else if fraction == 0 {
        sign
    } else {
        let n: u64 = shift_of_single(fraction);
        sign | ((897 - n) << 52) | (((fraction << n) & 0x7F_FFFF) << 29)
    }
}

/// Widens a number of half precision to double precision.
pub fn half_to_double(bits: u16) -> (wide: u64)
    ensures
        wide == widen_half(bits),
{
    let wide: u64 = bits as u64;
    let sign: u64 = (wide >> 15) << 63;
    let exponent: u64 = (wide >> 10) & 0x1F;
    let fraction: u64 = wide & 0x3FF;
    assert(exponent <= 0x1F) by (bit_vector)
        requires
            exponent == (wide >> 10) & 0x1F,
    ;
    if exponent == 0x1F {
        sign | 0x7FF0_0000_0000_0000 | (fraction << 42)
    } else if exponent != 0 {
        sign | ((exponent + 1008) << 52) | (fraction << 42)
    } else if fraction == 0 {
        sign
    } else {
        let n: u64 = shift_of_half(fraction);
        sign | ((1009 - n) << 52) | (((fraction << n) & 0x3FF) << 42)
    }
}

/// Narrows a number of double precision to single precision where that
/// loses nothing, and says `None` where no number of single precision equals
/// it.
pub fn double_to_single(bits: u64) -> (narrow: Option<u32>)
    ensures
        match narrow {
            Some(narrow) => widen_single(narrow) == bits && narrow == single_candidate(bits),
            None => forall|narrow: u32| widen_single(narrow) != bits,
        },
{
    let sign: u64 = (bits >> 63) << 31;
    let exponent: u64 = (bits >> 52) & 0x7FF;
    let fraction: u64 = bits & 0xF_FFFF_FFFF_FFFF;
    let candidate: u32 = if exponent == 0x7FF {
        #[verifier::truncate]
        ((sign | 0x7F80_0000 | (fraction >> 29)) as u32)
    } else if exponent >= 897 && exponent <= 1150 {
        #[verifier::truncate]
        ((sign | ((exponent - 896) << 23) | (fraction >> 29)) as u32)
    } else if exponent >= 874 && exponent <= 896 {
        #[verifier::truncate]
        ((sign | ((fraction | 0x10_0000_0000_0000) >> (926 - exponent))) as u32)
    } else {
        #[verifier::truncate]
        (sign as u32)
    };
    proof {
        lemma_fits_single(bits);
    }
    if single_to_double(candidate) == bits {
        Some(candidate)
    } else {
        None
    }
}

/// Narrows a number of double precision to half precision where that loses
/// nothing, and says `None` where no number of half precision equals it.
pub fn double_to_half(bits: u64) -> (narrow: Option<u16>)
    ensures
        match narrow {
            Some(narrow) => widen_half(narrow) == bits && narrow == half_candidate(bits),
            None => forall|narrow: u16| widen_half(narrow) != bits,
        },
{
    let sign: u64 = (bits >> 63) << 15;
    let exponent: u64 = (bits >> 52) & 0x7FF;
    let fraction: u64 = bits & 0xF_FFFF_FFFF_FFFF;
    let candidate: u16 = if exponent == 0x7FF {
        #[verifier::truncate]
        ((sign | 0x7C00 | (fraction >> 42)) as u16)
    } else if exponent >= 1009 && exponent <= 1038 {
        #[verifier::truncate]
        ((sign | ((exponent - 1008) << 10) | (fraction >> 42)) as u16)
    } else if exponent >= 999 && exponent <= 1008 {
        #[verifier::truncate]
        ((sign | ((fraction | 0x10_0000_0000_0000) >> (1051 - exponent))) as u16)
    } else {
        #[verifier::truncate]
        (sign as u16)
    };
    proof {
        lemma_fits_half(bits);
    }
    if half_to_double(candidate) == bits {
        Some(candidate)
    } else {
        None
    }
}

/// The item of a number of double precision: the narrowest of half, single
/// and double precision that holds exactly that number.
pub open spec fn float_item(bits: u64) -> ItemView {
    if fits_half(bits) {
        ItemView::Float16(half_candidate(bits))
    } else if fits_single(bits) {
        ItemView::Float32(single_candidate(bits))
    } else {
        ItemView::Float64(bits)
    }
}

/// The number that an item holds, in double precision, where it holds one.
pub open spec fn float_value(item: ItemView) -> Option<u64> {
    match item {
        ItemView::Float16(bits) => Some(widen_half(bits)),
        ItemView::Float32(bits) => Some(widen_single(bits)),
        ItemView::Float64(bits) => Some(bits),
        _ => None,
    }
}

/// The number of an item for a receiver that takes single precision: a
/// mismatch where the item holds no number, an overflow where the number is
/// none of single precision.
pub open spec fn single_value(item: ItemView) -> Result<u32, DecodeError> {
    match float_value(item) {
        None => Err(DecodeError::TypeMismatch),
        Some(bits) => if fits_single(bits) {
            Ok(single_candidate(bits))
        } else {
            Err(DecodeError::Overflow)
        },
    }
}

/// A number is read back from its item bit by bit, and its item is the
/// narrowest that holds it: of half precision exactly where some number of
/// half precision equals it, else of single precision exactly where some
/// number of single precision does.
pub proof fn lemma_float_item(bits: u64)
    ensures
        float_value(float_item(bits)) == Some(bits),
        float_item(bits).encodable(),
        float_item(bits) is Float16 <==> exists|narrow: u16| widen_half(narrow) == bits,
        float_item(bits) is Float32 <==> !(exists|narrow: u16| widen_half(narrow) == bits)
            && exists|narrow: u32| widen_single(narrow) == bits,
{
    lemma_fits_half(bits);
    lemma_fits_single(bits);
}

/// A number of single precision is read back for a receiver of single
/// precision bit by bit.
pub proof fn lemma_single_round_trip(bits: u32)
    ensures
        single_value(float_item(widen_single(bits))) == Ok::<u32, DecodeError>(bits),
{
    lemma_single_found_again(bits);
    lemma_float_item(widen_single(bits));
}

impl Item {
    /// The item of a number of double precision, given by its bits: the
    /// narrowest that holds it.
    pub fn float(bits: u64) -> (item: Item)
        ensures
            item@ == float_item(bits),
    {
        proof {
            lemma_fits_half(bits);
            lemma_fits_single(bits);
        }
        match double_to_half(bits) {
            Some(narrow) => Item::Float16(narrow),
            None => match double_to_single(bits) {
                Some(narrow) => Item::Float32(narrow),
                None => Item::Float64(bits),
            },
        }
    }

    /// The bits of the number that the item holds, in double precision; a
    /// mismatch where it holds none.
    pub fn as_float(&self) -> (bits: Result<u64, DecodeError>)
        ensures
            match float_value(self@) {
                Some(value) => bits == Ok::<u64, DecodeError>(value),
                None => bits == Err::<u64, DecodeError>(DecodeError::TypeMismatch),
            },
    {
        match self {
            Item::Float16(bits) => Ok(half_to_double(*bits)),
            Item::Float32(bits) => Ok(single_to_double(*bits)),
            Item::Float64(bits) => Ok(*bits),
            _ => Err(DecodeError::TypeMismatch),
        }
    }

    /// The bits of the number that the item holds, in single precision; a
    /// mismatch where it holds none, an overflow where the number is none of
    /// single precision.
    pub fn as_single(&self) -> (bits: Result<u32, DecodeError>)
        ensures
            bits == single_value(self@),
    {
        match self.as_float() {
            Ok(wide) => {
                proof {
                    lemma_fits_single(wide);
                }
                match double_to_single(wide) {
                    Some(narrow) => Ok(narrow),
                    None => Err(DecodeError::Overflow),
                }
            },
            Err(error) => Err(error),
        }
    }
}

} // verus!
