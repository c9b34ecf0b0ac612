//! Number support for the virtual machine.
//!
//! A runtime number is a 64-bit IEEE-754 value carried as its bit pattern
//! (`u64`). Equality, ordering, truthiness and classification are defined
//! here directly over the bit pattern. Rounding arithmetic is delegated to
//! a software floating-point library behind trusted wrappers whose results
//! are named: two calls on the same bit patterns always yield the same bits.

use vstd::prelude::*;
use rustc_apfloat::Float;
use rustc_apfloat::ieee::Double;

verus! {

/// Mask of the sign bit.
pub const SIGN_MASK: u64 = 0x8000_0000_0000_0000;

/// Mask of everything but the sign bit.
pub const ABS_MASK: u64 = 0x7FFF_FFFF_FFFF_FFFF;

/// Mask of the exponent field.
pub const EXP_MASK: u64 = 0x7FF0_0000_0000_0000;

/// Mask of the fraction field.
pub const FRAC_MASK: u64 = 0x000F_FFFF_FFFF_FFFF;

/// Bit pattern of +0.0.
pub const ZERO_BITS: u64 = 0x0000_0000_0000_0000;

/// Bit pattern of 1.0.
pub const ONE_BITS: u64 = 0x3FF0_0000_0000_0000;

/// Bit pattern of the canonical quiet NaN.
pub const NAN_BITS: u64 = 0x7FF8_0000_0000_0000;

/// Bit pattern of +infinity.
pub const INF_BITS: u64 = 0x7FF0_0000_0000_0000;

/// Whether the bit pattern denotes a NaN.
pub open spec fn spec_is_nan(bits: u64) -> bool {
    bits & ABS_MASK > EXP_MASK
}

/// Whether the bit pattern denotes +0.0 or -0.0.
pub open spec fn spec_is_zero(bits: u64) -> bool {
    bits & ABS_MASK == 0
}

/// Whether the bit pattern denotes +infinity or -infinity.
pub open spec fn spec_is_inf(bits: u64) -> bool {
    bits & ABS_MASK == EXP_MASK
}

/// Whether the sign bit is set.
pub open spec fn spec_is_negative(bits: u64) -> bool {
    bits & SIGN_MASK != 0
}

/// Order key: maps the bit pattern to an integer so that the IEEE-754
/// ordering of two non-NaN values is the ordering of their keys. The two
/// zeroes share one key.
pub open spec fn spec_ord_key(bits: u64) -> int {
    if bits & SIGN_MASK == 0 {
        bits + 0x8000_0000_0000_0000
    } else {
        0x1_0000_0000_0000_0000 - bits
    }
}

/// IEEE-754 equality of two numbers: NaN equals nothing, the two zeroes
/// are equal, and otherwise equal bit patterns are equal values.
pub open spec fn spec_num_eq(a: u64, b: u64) -> bool {
    &&& !spec_is_nan(a)
    &&& !spec_is_nan(b)
    &&& (a == b || (spec_is_zero(a) && spec_is_zero(b)))
}

/// IEEE-754 strict "less than" of two numbers; false whenever either side
/// is NaN.
pub open spec fn spec_num_lt(a: u64, b: u64) -> bool {
    &&& !spec_is_nan(a)
    &&& !spec_is_nan(b)
    &&& spec_ord_key(a) < spec_ord_key(b)
}

/// Truthiness of a number: everything but the two zeroes counts as true.
pub open spec fn spec_num_truthy(bits: u64) -> bool {
    !spec_is_zero(bits)
}

/// Whether the bit pattern denotes a NaN.
pub fn is_nan_bits(bits: u64) -> (r: bool)
    ensures
        r == spec_is_nan(bits),
{
    bits & ABS_MASK > EXP_MASK
}

/// Whether the bit pattern denotes +0.0 or -0.0.
pub fn is_zero_bits(bits: u64) -> (r: bool)
    ensures
        r == spec_is_zero(bits),
{
    bits & ABS_MASK == 0
}

/// IEEE-754 equality on bit patterns.
pub fn num_eq_bits(a: u64, b: u64) -> (r: bool)
    ensures
        r == spec_num_eq(a, b),
{
    if is_nan_bits(a) || is_nan_bits(b) {
        false
    } else if is_zero_bits(a) && is_zero_bits(b) {
        true
    } else {
        a == b
    }
}

/// IEEE-754 strict "less than" on bit patterns.
pub fn num_lt_bits(a: u64, b: u64) -> (r: bool)
    ensures
        r == spec_num_lt(a, b),
{
    if is_nan_bits(a) || is_nan_bits(b) {
        false
    } else {
        proof {
            assert(a & 0x8000_0000_0000_0000u64 == 0 ==> (a | 0x8000_0000_0000_0000u64)
                == a + 0x8000_0000_0000_0000u64) by (bit_vector);
            assert(a & 0x8000_0000_0000_0000u64 != 0 ==> a >= 0x8000_0000_0000_0000u64
                && !a == 0xFFFF_FFFF_FFFF_FFFFu64 - a) by (bit_vector);
            assert(b & 0x8000_0000_0000_0000u64 == 0 ==> (b | 0x8000_0000_0000_0000u64)
                == b + 0x8000_0000_0000_0000u64) by (bit_vector);
            assert(b & 0x8000_0000_0000_0000u64 != 0 ==> b >= 0x8000_0000_0000_0000u64
                && !b == 0xFFFF_FFFF_FFFF_FFFFu64 - b) by (bit_vector);
        }
        let ka: u64 = if a & SIGN_MASK == 0 {
            a | SIGN_MASK
        } else {
            !a + 1
        };
        let kb: u64 = if b & SIGN_MASK == 0 {
            b | SIGN_MASK
        } else {
            !b + 1
        };
        ka < kb
    }
}

/// Truthiness of a number.
pub fn num_truthy_bits(bits: u64) -> (r: bool)
    ensures
        r == spec_num_truthy(bits),
{
    !is_zero_bits(bits)
}

/// The rounded IEEE-754 sum of two numbers given as bit patterns.
pub uninterp spec fn num_add(a: u64, b: u64) -> u64;

/// The rounded IEEE-754 difference of two numbers given as bit patterns.
pub uninterp spec fn num_sub(a: u64, b: u64) -> u64;

/// The rounded IEEE-754 product of two numbers given as bit patterns.
pub uninterp spec fn num_mul(a: u64, b: u64) -> u64;

/// The rounded IEEE-754 quotient of two numbers given as bit patterns.
pub uninterp spec fn num_div(a: u64, b: u64) -> u64;

/// The IEEE-754 double carrying the value of an unsigned integer.
pub uninterp spec fn num_of_u32(n: u32) -> u64;

/// The decimal rendering of a number given as a bit pattern.
pub uninterp spec fn num_text(bits: u64) -> Seq<char>;

/// Relies on rustc_apfloat's IEEE double addition (round to nearest even);
/// the sum depends on the operand bit patterns alone.
#[verifier::external_body]
pub fn add_bits(a: u64, b: u64) -> (r: u64)
    ensures
        r == num_add(a, b),
{
    (Double::from_bits(a as u128) + Double::from_bits(b as u128)).value.to_bits() as u64
}

/// Relies on rustc_apfloat's IEEE double subtraction (round to nearest
/// even); the difference depends on the operand bit patterns alone.
#[verifier::external_body]
pub fn sub_bits(a: u64, b: u64) -> (r: u64)
    ensures
        r == num_sub(a, b),
{
    (Double::from_bits(a as u128) - Double::from_bits(b as u128)).value.to_bits() as u64
}

/// Relies on rustc_apfloat's IEEE double multiplication (round to nearest
/// even); the product depends on the operand bit patterns alone.
#[verifier::external_body]
pub fn mul_bits(a: u64, b: u64) -> (r: u64)
    ensures
        r == num_mul(a, b),
{
    (Double::from_bits(a as u128) * Double::from_bits(b as u128)).value.to_bits() as u64
}

/// Relies on rustc_apfloat's IEEE double division (round to nearest even);
/// the quotient depends on the operand bit patterns alone and the call
/// never panics, even on a zero divisor.
#[verifier::external_body]
pub fn div_bits(a: u64, b: u64) -> (r: u64)
    ensures
        r == num_div(a, b),
{
    (Double::from_bits(a as u128) / Double::from_bits(b as u128)).value.to_bits() as u64
}

/// Relies on rustc_apfloat's conversion from an unsigned integer to an
/// IEEE double (exact for every `u32`); the result depends on the argument
/// alone.
#[verifier::external_body]
pub fn u32_to_bits(n: u32) -> (r: u64)
    ensures
        r == num_of_u32(n),
{
    Double::from_u128(n as u128).value.to_bits() as u64
}

/// Relies on rustc_apfloat's decimal rendering of an IEEE double; the text
/// depends on the bit pattern alone.
#[verifier::external_body]
pub fn num_to_text(bits: u64) -> (r: String)
    ensures
        r@ == num_text(bits),
{
    format!("{}", Double::from_bits(bits as u128))
}

/// Bit pattern of 0.5.
pub const HALF_BITS: u64 = 0x3FE0_0000_0000_0000;

/// Bit pattern of 2 to the 108th power.
pub const TWO_POW_108_BITS: u64 = 0x46B0_0000_0000_0000;

/// Bit pattern of 2 to the -54th power.
pub const TWO_POW_NEG_54_BITS: u64 = 0x3C90_0000_0000_0000;

/// One Newton step toward the square root of `x`, iterated to a fixed
/// point or until the step budget runs out.
pub open spec fn spec_newton_sqrt(x: u64, cur: u64, fuel: nat) -> u64
    decreases fuel,
{
    if fuel == 0 {
        cur
    } else {
        let nx = num_mul(num_add(cur, num_div(x, cur)), HALF_BITS);
        if nx == cur {
            cur
        } else {
            spec_newton_sqrt(x, nx, (fuel - 1) as nat)
        }
    }
}

/// The Newton seed: an exponent-halving estimate of the square root.
pub open spec fn spec_sqrt_seed(x: u64) -> u64 {
    ((x >> 1) + 0x1FF8_0000_0000_0000) as u64
}

/// The square root of a positive value: Newton iteration from the seed.
pub open spec fn spec_sqrt_core(x: u64) -> u64 {
    spec_newton_sqrt(x, spec_sqrt_seed(x), 30)
}

/// The square root of a number: NaN for NaN or negative input, the input
/// for a zero, infinity for infinity, and a converged Newton iteration for
/// positive finite values (subnormals are scaled up exactly first).
pub open spec fn spec_sqrt_bits(bits: u64) -> u64 {
    if spec_is_nan(bits) {
        NAN_BITS
    } else if spec_is_zero(bits) {
        bits
    } else if spec_is_negative(bits) {
        NAN_BITS
    } else if spec_is_inf(bits) {
        INF_BITS
    } else if bits & EXP_MASK == 0 {
        num_mul(spec_sqrt_core(num_mul(bits, TWO_POW_108_BITS)), TWO_POW_NEG_54_BITS)
    } else {
        spec_sqrt_core(bits)
    }
}

/// Compute the square root of a number, as the value module describes it.
pub fn sqrt_bits(bits: u64) -> (r: u64)
    ensures
        r == spec_sqrt_bits(bits),
{
    if is_nan_bits(bits) {
        return NAN_BITS;
    }
    if is_zero_bits(bits) {
        return bits;
    }
    if bits & SIGN_MASK != 0 {
        return NAN_BITS;
    }
    if bits & ABS_MASK == EXP_MASK {
        return INF_BITS;
    }
    if bits & EXP_MASK == 0 {
        let scaled = mul_bits(bits, TWO_POW_108_BITS);
        let root = newton_sqrt(scaled);
        mul_bits(root, TWO_POW_NEG_54_BITS)
    } else {
        newton_sqrt(bits)
    }
}

fn newton_sqrt(x: u64) -> (r: u64)
    ensures
        r == spec_sqrt_core(x),
{
    proof {
        assert(x >> 1 <= 0x7FFF_FFFF_FFFF_FFFFu64) by (bit_vector);
    }
    let mut cur: u64 = (x >> 1) + 0x1FF8_0000_0000_0000;
    let mut fuel: u64 = 30;
    while fuel > 0
        invariant
            0 <= fuel <= 30,
            spec_sqrt_core(x) == spec_newton_sqrt(x, cur, fuel as nat),
        decreases fuel,
    {
        let nx = mul_bits(add_bits(cur, div_bits(x, cur)), HALF_BITS);
        if nx == cur {
            return cur;
        }
        cur = nx;
        fuel = fuel - 1;
    }
    cur
}

/// Binary exponentiation over the rounding multiplication: the result of
/// multiplying `result` by `base` raised to the `n`th power.
pub open spec fn spec_pow_loop(result: u64, base: u64, n: u64) -> u64
    decreases n,
{
    if n == 0 {
        result
    } else {
        let r2 = if n & 1 == 1 {
            num_mul(result, base)
        } else {
            result
        };
        proof {
            assert(n != 0 ==> (n >> 1) < n) by (bit_vector);
        }
        spec_pow_loop(r2, num_mul(base, base), n >> 1)
    }
}

/// Raising a number to a power. A zero exponent yields one; an exponent
/// that is NaN, infinite, non-integral, or of magnitude at least 2 to the
/// 63rd power is rejected; an integral exponent is computed by binary
/// exponentiation, with a negative exponent taking the reciprocal.
pub open spec fn spec_pow_bits(b: u64, e: u64) -> Result<u64, ()> {
    if spec_is_zero(e) {
        Ok(ONE_BITS)
    } else if spec_is_nan(e) || spec_is_inf(e) {
        Err(())
    } else {
        let ef = (e & EXP_MASK) >> 52;
        if ef < 1023 {
            Err(())
        } else {
            let k = (ef - 1023) as u64;
            if k > 62 {
                Err(())
            } else {
                let m = (e & FRAC_MASK) | 0x0010_0000_0000_0000;
                if k < 52 && (e & FRAC_MASK) & (((1u64 << ((52 - k) as u64)) - 1) as u64)
                    != 0 {
                    Err(())
                } else {
                    let n = if k < 52 {
                        m >> ((52 - k) as u64)
                    } else {
                        m << ((k - 52) as u64)
                    };
                    let p = spec_pow_loop(ONE_BITS, b, n);
                    if spec_is_negative(e) {
                        Ok(num_div(ONE_BITS, p))
                    } else {
                        Ok(p)
                    }
                }
            }
        }
    }
}

/// Raise `b` to the power `e`, as the abstract description states.
pub fn pow_bits(b: u64, e: u64) -> (r: Result<u64, ()>)
    ensures
        r == spec_pow_bits(b, e),
{
    if is_zero_bits(e) {
        return Ok(ONE_BITS);
    }
    if is_nan_bits(e) || (e & ABS_MASK == EXP_MASK) {
        proof {
            assert(e & 0x7FFF_FFFF_FFFF_FFFFu64 == 0x7FF0_0000_0000_0000u64 ==> (e
                & 0x7FFF_FFFF_FFFF_FFFFu64) == 0x7FF0_0000_0000_0000u64) by (bit_vector);
        }
        return Err(());
    }
    let ef = (e & EXP_MASK) >> 52;
    if ef < 1023 {
        return Err(());
    }
    let k = ef - 1023;
    if k > 62 {
        return Err(());
    }
    let m = (e & FRAC_MASK) | 0x0010_0000_0000_0000;
    proof {
        assert(((e & 0x7FF0_0000_0000_0000u64) >> 52) <= 0x7FF) by (bit_vector);
    }
    if k < 52 {
        let low: u64 = 52 - k;
        proof {
            assert(low < 64 ==> (1u64 << low) >= 1) by (bit_vector);
        }
        if (e & FRAC_MASK) & ((1u64 << low) - 1) != 0 {
            return Err(());
        }
        let n = m >> low;
        let p = pow_loop(b, n);
        if e & SIGN_MASK != 0 {
            Ok(div_bits(ONE_BITS, p))
        } else {
            Ok(p)
        }
    } else {
        let sh: u64 = k - 52;
        proof {
            assert(sh < 64);
        }
        let n = m << sh;
        let p = pow_loop(b, n);
        if e & SIGN_MASK != 0 {
            Ok(div_bits(ONE_BITS, p))
        } else {
            Ok(p)
        }
    }
}

fn pow_loop(base0: u64, n0: u64) -> (r: u64)
    ensures
        r == spec_pow_loop(ONE_BITS, base0, n0),
{
    let mut result: u64 = ONE_BITS;
    let mut base: u64 = base0;
    let mut n: u64 = n0;
    while n > 0
        invariant
            spec_pow_loop(ONE_BITS, base0, n0) == spec_pow_loop(result, base, n),
        decreases n,
    {
        if n & 1 == 1 {
            result = mul_bits(result, base);
        }
        base = mul_bits(base, base);
        proof {
            assert(n != 0 ==> (n >> 1) < n) by (bit_vector);
        }
        n = n >> 1;
    }
    result
}

} // verus!
