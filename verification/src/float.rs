//! Floating-point values as bit patterns.
//!
//! What can be decided on the bits alone is decided here: sign, NaN, order,
//! minimum and maximum, and truncation to an integer. Arithmetic that rounds
//! is the business of a `FloatUnit`, which the embedder supplies.

use vstd::prelude::*;
use vstd::arithmetic::power2::{pow2, lemma2_to64, lemma2_to64_rest, lemma_pow2_pos, lemma_pow2_strictly_increases, lemma_pow2_unfold};
use crate::inst::{FloatBinOp, FloatRelOp, FloatUnOp};
use crate::value::{Error, F32, F64, Value};

verus! {

/// The arithmetic that rounds: given bit patterns, returns the bit pattern of
/// the result. The executor hands on whatever comes back.
pub trait FloatUnit {
    /// `Ceil`, `Floor`, `Trunc`, `Nearest` or `Sqrt` of a 32-bit float.
    fn f32_unary(&self, op: FloatUnOp, a: F32) -> (r: F32);

    /// `Add`, `Sub`, `Mul` or `Div` of two 32-bit floats.
    fn f32_binary(&self, op: FloatBinOp, a: F32, b: F32) -> (r: F32);

    /// `Ceil`, `Floor`, `Trunc`, `Nearest` or `Sqrt` of a 64-bit float.
    fn f64_unary(&self, op: FloatUnOp, a: F64) -> (r: F64);

    /// `Add`, `Sub`, `Mul` or `Div` of two 64-bit floats.
    fn f64_binary(&self, op: FloatBinOp, a: F64, b: F64) -> (r: F64);

    fn f32_convert_i32(&self, v: i32) -> (r: F32);

    fn f32_convert_u32(&self, v: u32) -> (r: F32);

    fn f32_convert_i64(&self, v: i64) -> (r: F32);

    fn f32_convert_u64(&self, v: u64) -> (r: F32);

    fn f64_convert_i32(&self, v: i32) -> (r: F64);

    fn f64_convert_u32(&self, v: u32) -> (r: F64);

    fn f64_convert_i64(&self, v: i64) -> (r: F64);

    fn f64_convert_u64(&self, v: u64) -> (r: F64);

    fn f32_demote(&self, v: F64) -> (r: F32);

    fn f64_promote(&self, v: F32) -> (r: F64);
}

/// Whether the sign bit of a 32-bit pattern is set.
pub open spec fn f32_sign(bits: u32) -> bool {
    bits >= 0x8000_0000
}

/// A 32-bit pattern without its sign bit.
pub open spec fn f32_magnitude(bits: u32) -> u32 {
    (bits % 0x8000_0000) as u32
}

/// Whether a 32-bit pattern is a NaN: all exponent bits set and a fraction
/// that is not zero.
pub open spec fn f32_is_nan(bits: u32) -> bool {
    f32_magnitude(bits) > 0x7f80_0000
}

/// An integer that orders the 32-bit patterns other than NaNs as the numbers
/// they denote are ordered. The two zeros get the same key.
pub open spec fn f32_key(bits: u32) -> int {
    if f32_sign(bits) {
        -(f32_magnitude(bits) as int)
    } else {
        f32_magnitude(bits) as int
    }
}

/// What a comparison of two 32-bit patterns yields. Every comparison with a
/// NaN is false, but for `Ne`, which is then true.
pub open spec fn f32_rel_spec(op: FloatRelOp, a: u32, b: u32) -> bool {
    let ordered = !f32_is_nan(a) && !f32_is_nan(b);
    match op {
        FloatRelOp::Eq => ordered && f32_key(a) == f32_key(b),
        FloatRelOp::Ne => !(ordered && f32_key(a) == f32_key(b)),
        FloatRelOp::Lt => ordered && f32_key(a) < f32_key(b),
        FloatRelOp::Gt => ordered && f32_key(a) > f32_key(b),
        FloatRelOp::Le => ordered && f32_key(a) <= f32_key(b),
        FloatRelOp::Ge => ordered && f32_key(a) >= f32_key(b),
    }
}

/// The pattern with the sign bit cleared.
pub open spec fn f32_abs_spec(a: u32) -> u32 {
    f32_magnitude(a)
}

/// The pattern with the sign bit flipped.
pub open spec fn f32_neg_spec(a: u32) -> u32 {
    if f32_sign(a) {
        f32_magnitude(a)
    } else {
        (f32_magnitude(a) + 0x8000_0000) as u32
    }
}

/// The magnitude of `a` with the sign bit of `b`.
pub open spec fn f32_copysign_spec(a: u32, b: u32) -> u32 {
    if f32_sign(b) {
        (f32_magnitude(a) + 0x8000_0000) as u32
    } else {
        f32_magnitude(a)
    }
}

/// The smaller of two patterns. A NaN operand is the result (the first where
/// both are); of the two zeros the negative one is the smaller.
pub open spec fn f32_min_spec(a: u32, b: u32) -> u32 {
    if f32_is_nan(a) {
        a
    } else if f32_is_nan(b) {
        b
    } else if f32_key(a) < f32_key(b) {
        a
    } else if f32_key(b) < f32_key(a) {
        b
    } else if f32_sign(a) {
        a
    } else {
        b
    }
}

/// The larger of two patterns. A NaN operand is the result (the first where
/// both are); of the two zeros the positive one is the larger.
pub open spec fn f32_max_spec(a: u32, b: u32) -> u32 {
    if f32_is_nan(a) {
        a
    } else if f32_is_nan(b) {
        b
    } else if f32_key(a) > f32_key(b) {
        a
    } else if f32_key(b) > f32_key(a) {
        b
    } else if f32_sign(a) {
        b
    } else {
        a
    }
}

/// The minimum and the maximum of two patterns are NaN as soon as one of
/// the two is.
pub proof fn lemma_f32_min_max_nan(a: u32, b: u32)
    requires
        f32_is_nan(a) || f32_is_nan(b),
    ensures
        f32_is_nan(f32_min_spec(a, b)),
        f32_is_nan(f32_max_spec(a, b)),
{
}

impl F32 {
    pub fn is_sign_negative(self) -> (r: bool)
        ensures
            r == f32_sign(self.0),
    {
        self.0 >= 0x8000_0000
    }

    pub fn magnitude(self) -> (r: u32)
        ensures
            r == f32_magnitude(self.0),
    {
        self.0 % 0x8000_0000
    }

    pub fn is_nan(self) -> (r: bool)
        ensures
            r == f32_is_nan(self.0),
    {
        self.magnitude() > 0x7f80_0000
    }

    fn key(self) -> (r: i64)
        ensures
            r == f32_key(self.0),
    {
        if self.is_sign_negative() {
            -(self.magnitude() as i64)
        } else {
            self.magnitude() as i64
        }
    }

    /// Compares two patterns as the numbers they denote.
    pub fn rel(op: FloatRelOp, a: F32, b: F32) -> (r: bool)
        ensures
            r == f32_rel_spec(op, a.0, b.0),
    {
        let ordered = !a.is_nan() && !b.is_nan();
        let ka = a.key();
        let kb = b.key();
        match op {
            FloatRelOp::Eq => ordered && ka == kb,
            FloatRelOp::Ne => !(ordered && ka == kb),
            FloatRelOp::Lt => ordered && ka < kb,
            FloatRelOp::Gt => ordered && ka > kb,
            FloatRelOp::Le => ordered && ka <= kb,
            FloatRelOp::Ge => ordered && ka >= kb,
        }
    }

    pub fn abs(self) -> (r: F32)
        ensures
            r.0 == f32_abs_spec(self.0),
    {
        F32(self.magnitude())
    }

    pub fn neg(self) -> (r: F32)
        ensures
            r.0 == f32_neg_spec(self.0),
    {
        if self.is_sign_negative() {
            F32(self.magnitude())
        } else {
            F32(self.magnitude() + 0x8000_0000)
        }
    }

    /// The magnitude of `a` with the sign of `b`.
    pub fn copysign(a: F32, b: F32) -> (r: F32)
        ensures
            r.0 == f32_copysign_spec(a.0, b.0),
    {
        if b.is_sign_negative() {
            F32(a.magnitude() + 0x8000_0000)
        } else {
            F32(a.magnitude())
        }
    }

    pub fn min(a: F32, b: F32) -> (r: F32)
        ensures
            r.0 == f32_min_spec(a.0, b.0),
    {
        if a.is_nan() {
            a
        } else if b.is_nan() {
            b
        } else if a.key() < b.key() {
            a
        } else if b.key() < a.key() {
            b
        } else if a.is_sign_negative() {
            a
        } else {
            b
        }
    }

    pub fn max(a: F32, b: F32) -> (r: F32)
        ensures
            r.0 == f32_max_spec(a.0, b.0),
    {
        if a.is_nan() {
            a
        } else if b.is_nan() {
            b
        } else if a.key() > b.key() {
            a
        } else if b.key() > a.key() {
            b
        } else if a.is_sign_negative() {
            b
        } else {
            a
        }
    }
}

/// Whether the sign bit of a 64-bit pattern is set.
pub open spec fn f64_sign(bits: u64) -> bool {
    bits >= 0x8000_0000_0000_0000
}

/// A 64-bit pattern without its sign bit.
pub open spec fn f64_magnitude(bits: u64) -> u64 {
    (bits % 0x8000_0000_0000_0000) as u64
}

/// Whether a 64-bit pattern is a NaN: all exponent bits set and a fraction
/// that is not zero.
pub open spec fn f64_is_nan(bits: u64) -> bool {
    f64_magnitude(bits) > 0x7ff0_0000_0000_0000
}

/// An integer that orders the 64-bit patterns other than NaNs as the numbers
/// they denote are ordered. The two zeros get the same key.
pub open spec fn f64_key(bits: u64) -> int {
    if f64_sign(bits) {
        -(f64_magnitude(bits) as int)
    } else {
        f64_magnitude(bits) as int
    }
}

/// What a comparison of two 64-bit patterns yields. Every comparison with a
/// NaN is false, but for `Ne`, which is then true.
pub open spec fn f64_rel_spec(op: FloatRelOp, a: u64, b: u64) -> bool {
    let ordered = !f64_is_nan(a) && !f64_is_nan(b);
    match op {
        FloatRelOp::Eq => ordered && f64_key(a) == f64_key(b),
        FloatRelOp::Ne => !(ordered && f64_key(a) == f64_key(b)),
        FloatRelOp::Lt => ordered && f64_key(a) < f64_key(b),
        FloatRelOp::Gt => ordered && f64_key(a) > f64_key(b),
        FloatRelOp::Le => ordered && f64_key(a) <= f64_key(b),
        FloatRelOp::Ge => ordered && f64_key(a) >= f64_key(b),
    }
}

/// The pattern with the sign bit cleared.
pub open spec fn f64_abs_spec(a: u64) -> u64 {
    f64_magnitude(a)
}

/// The pattern with the sign bit flipped.
pub open spec fn f64_neg_spec(a: u64) -> u64 {
    if f64_sign(a) {
        f64_magnitude(a)
    } else {
        (f64_magnitude(a) + 0x8000_0000_0000_0000) as u64
    }
}

/// The magnitude of `a` with the sign bit of `b`.
pub open spec fn f64_copysign_spec(a: u64, b: u64) -> u64 {
    if f64_sign(b) {
        (f64_magnitude(a) + 0x8000_0000_0000_0000) as u64
    } else {
        f64_magnitude(a)
    }
}

/// The smaller of two patterns. A NaN operand is the result (the first where
/// both are); of the two zeros the negative one is the smaller.
pub open spec fn f64_min_spec(a: u64, b: u64) -> u64 {
    if f64_is_nan(a) {
        a
    } else if f64_is_nan(b) {
        b
    } else if f64_key(a) < f64_key(b) {
        a
    } else if f64_key(b) < f64_key(a) {
        b
    } else if f64_sign(a) {
        a
    } else {
        b
    }
}

/// The larger of two patterns. A NaN operand is the result (the first where
/// both are); of the two zeros the positive one is the larger.
pub open spec fn f64_max_spec(a: u64, b: u64) -> u64 {
    if f64_is_nan(a) {
        a
    } else if f64_is_nan(b) {
        b
    } else if f64_key(a) > f64_key(b) {
        a
    } else if f64_key(b) > f64_key(a) {
        b
    } else if f64_sign(a) {
        b
    } else {
        a
    }
}

/// The minimum and the maximum of two patterns are NaN as soon as one of
/// the two is.
pub proof fn lemma_f64_min_max_nan(a: u64, b: u64)
    requires
        f64_is_nan(a) || f64_is_nan(b),
    ensures
        f64_is_nan(f64_min_spec(a, b)),
        f64_is_nan(f64_max_spec(a, b)),
{
}

impl F64 {
    pub fn is_sign_negative(self) -> (r: bool)
        ensures
            r == f64_sign(self.0),
    {
        self.0 >= 0x8000_0000_0000_0000
    }

    pub fn magnitude(self) -> (r: u64)
        ensures
            r == f64_magnitude(self.0),
    {
        self.0 % 0x8000_0000_0000_0000
    }

    pub fn is_nan(self) -> (r: bool)
        ensures
            r == f64_is_nan(self.0),
    {
        self.magnitude() > 0x7ff0_0000_0000_0000
    }

    fn key(self) -> (r: i128)
        ensures
            r == f64_key(self.0),
    {
        if self.is_sign_negative() {
            -(self.magnitude() as i128)
        } else {
            self.magnitude() as i128
        }
    }

    /// Compares two patterns as the numbers they denote.
    pub fn rel(op: FloatRelOp, a: F64, b: F64) -> (r: bool)
        ensures
            r == f64_rel_spec(op, a.0, b.0),
    {
        let ordered = !a.is_nan() && !b.is_nan();
        let ka = a.key();
        let kb = b.key();
        match op {
            FloatRelOp::Eq => ordered && ka == kb,
            FloatRelOp::Ne => !(ordered && ka == kb),
            FloatRelOp::Lt => ordered && ka < kb,
            FloatRelOp::Gt => ordered && ka > kb,
            FloatRelOp::Le => ordered && ka <= kb,
            FloatRelOp::Ge => ordered && ka >= kb,
        }
    }

    pub fn abs(self) -> (r: F64)
        ensures
            r.0 == f64_abs_spec(self.0),
    {
        F64(self.magnitude())
    }

    pub fn neg(self) -> (r: F64)
        ensures
            r.0 == f64_neg_spec(self.0),
    {
        if self.is_sign_negative() {
            F64(self.magnitude())
        } else {
            F64(self.magnitude() + 0x8000_0000_0000_0000)
        }
    }

    /// The magnitude of `a` with the sign of `b`.
    pub fn copysign(a: F64, b: F64) -> (r: F64)
        ensures
            r.0 == f64_copysign_spec(a.0, b.0),
    {
        if b.is_sign_negative() {
            F64(a.magnitude() + 0x8000_0000_0000_0000)
        } else {
            F64(a.magnitude())
        }
    }

    pub fn min(a: F64, b: F64) -> (r: F64)
        ensures
            r.0 == f64_min_spec(a.0, b.0),
    {
        if a.is_nan() {
            a
        } else if b.is_nan() {
            b
        } else if a.key() < b.key() {
            a
        } else if b.key() < a.key() {
            b
        } else if a.is_sign_negative() {
            a
        } else {
            b
        }
    }

    pub fn max(a: F64, b: F64) -> (r: F64)
        ensures
            r.0 == f64_max_spec(a.0, b.0),
    {
        if a.is_nan() {
            a
        } else if b.is_nan() {
            b
        } else if a.key() > b.key() {
            a
        } else if b.key() > a.key() {
            b
        } else if a.is_sign_negative() {
            b
        } else {
            a
        }
    }
}

/// The integer part of `sig` times 2 to the power `exp`.
pub open spec fn scaled(sig: nat, exp: int) -> nat {
    if exp >= 0 {
        sig * pow2(exp as nat)
    } else {
        sig / pow2((-exp) as nat)
    }
}

/// The integer that truncating a float toward zero gives: `None` for a NaN or
/// an infinity, which denote no number.
pub open spec fn signed_integer(finite: bool, negative: bool, magnitude: nat) -> Option<int> {
    if !finite {
        None
    } else if negative {
        Some(-(magnitude as int))
    } else {
        Some(magnitude as int)
    }
}

/// The conversion of a truncated float to an integer type with the range
/// `lo ..= hi`: it fails for what denotes no number and for a number outside
/// the range.
pub open spec fn in_range(v: Option<int>, lo: int, hi: int) -> Result<int, Error> {
    match v {
        Some(x) => if lo <= x <= hi {
            Ok(x)
        } else {
            Err(Error::InvalidConversionToInt)
        },
        None => Err(Error::InvalidConversionToInt),
    }
}

fn pow2_u64(k: u32) -> (r: u64)
    requires
        k < 64,
    ensures
        r == pow2(k as nat),
        r >= 1,
{
    let mut r: u64 = 1;
    let mut i: u32 = 0;
    proof {
        lemma2_to64();
    }
    while i < k
        invariant
            i <= k < 64,
            r == pow2(i as nat),
            r >= 1,
        decreases k - i,
    {
        proof {
            lemma_pow2_unfold((i + 1) as nat);
            lemma2_to64_rest();
            if i + 1 < 63 {
                lemma_pow2_strictly_increases((i + 1) as nat, 63);
            }
        }
        r = r * 2;
        i = i + 1;
    }
    r
}

/// The integer part of `sig` times 2 to the power `exp`, where it fits 64 bits.
fn scale(sig: u64, exp: i32) -> (r: Option<u64>)
    requires
        -0x1000 < exp < 0x1000,
    ensures
        r matches Some(m) ==> m == scaled(sig as nat, exp as int),
        r is None ==> scaled(sig as nat, exp as int) > u64::MAX,
{
    if sig == 0 {
        proof {
            if exp >= 0 {
                assert(0 * pow2(exp as nat) == 0) by (nonlinear_arith);
            } else {
                lemma_pow2_pos((-exp) as nat);
                assert(0nat / pow2((-exp) as nat) == 0) by (nonlinear_arith)
                    requires
                        pow2((-exp) as nat) > 0,
                ;
            }
        }
        return Some(0);
    }
    if exp >= 0 {
        if exp >= 64 {
            proof {
                lemma2_to64_rest();
                if exp > 64 {
                    lemma_pow2_strictly_increases(64, exp as nat);
                }
                let p = pow2(exp as nat);
                assert(sig as nat * p >= p) by (nonlinear_arith)
                    requires
                        sig >= 1,
                ;
            }
            None
        } else {
            let p: u64 = pow2_u64(exp as u32);
            sig.checked_mul(p)
        }
    } else {
        let k: u32 = (-exp) as u32;
        if k >= 64 {
            proof {
                lemma2_to64_rest();
                if k > 64 {
                    lemma_pow2_strictly_increases(64, k as nat);
                }
                let p = pow2(k as nat);
                assert(sig as nat / p == 0) by (nonlinear_arith)
                    requires
                        0 <= sig < p,
                ;
            }
            Some(0)
        } else {
            let p: u64 = pow2_u64(k);
            Some(sig / p)
        }
    }
}

/// Fits a truncated float into the range `lo ..= hi`.
fn fit(
    finite: bool,
    negative: bool,
    magnitude: Option<u64>,
    lo: i128,
    hi: i128,
    Ghost(m): Ghost<nat>,
) -> (r: Result<i128, Error>)
    requires
        -0x1_0000_0000_0000_0000 < lo <= hi < 0x1_0000_0000_0000_0000,
        magnitude matches Some(x) ==> x == m,
        magnitude is None ==> m > u64::MAX,
    ensures
        match in_range(signed_integer(finite, negative, m), lo as int, hi as int) {
            Ok(v) => r == Ok::<i128, Error>(v as i128),
            Err(e) => r == Err::<i128, Error>(e),
        },
{
    if !finite {
        return Err(Error::InvalidConversionToInt);
    }
    match magnitude {
        None => Err(Error::InvalidConversionToInt),
        Some(m) => {
            let v: i128 = if negative {
                -(m as i128)
            } else {
                m as i128
            };
            if lo <= v && v <= hi {
                Ok(v)
            } else {
                Err(Error::InvalidConversionToInt)
            }
        },
    }
}

/// The exponent field of a 32-bit pattern.
pub open spec fn f32_exponent(bits: u32) -> nat {
    (f32_magnitude(bits) / 0x80_0000) as nat
}

/// The fraction field of a 32-bit pattern.
pub open spec fn f32_fraction(bits: u32) -> nat {
    (bits % 0x80_0000) as nat
}

/// The integer part of the magnitude that a 32-bit pattern denotes: its
/// significand times 2 to the power of its exponent less the bias and the
/// width of the fraction.
pub open spec fn f32_trunc_magnitude(bits: u32) -> nat {
    if f32_exponent(bits) == 0 {
        scaled(f32_fraction(bits), -149)
    } else {
        scaled(0x80_0000 + f32_fraction(bits), f32_exponent(bits) - 150)
    }
}

/// The integer that a 32-bit pattern truncates to.
pub open spec fn f32_trunc_spec(bits: u32) -> Option<int> {
    signed_integer(f32_exponent(bits) != 0xff, f32_sign(bits), f32_trunc_magnitude(bits))
}

impl F32 {
    fn trunc_to(self, lo: i128, hi: i128) -> (r: Result<i128, Error>)
        requires
            -0x1_0000_0000_0000_0000 < lo <= hi < 0x1_0000_0000_0000_0000,
        ensures
            match in_range(f32_trunc_spec(self.0), lo as int, hi as int) {
                Ok(v) => r == Ok::<i128, Error>(v as i128),
                Err(e) => r == Err::<i128, Error>(e),
            },
    {
        let e: u32 = self.magnitude() / 0x80_0000;
        let m: u32 = self.0 % 0x80_0000;
        let magnitude = if e == 0 {
            scale(m as u64, -149)
        } else {
            scale(0x80_0000 + m as u64, e as i32 - 150)
        };
        fit(e != 0xff, self.is_sign_negative(), magnitude, lo, hi, Ghost(f32_trunc_magnitude(self.0)))
    }

    /// Truncates toward zero to a signed 32-bit integer; fails for a NaN, an
    /// infinity and a number out of range.
    pub fn trunc_to_i32(self) -> (r: Result<i32, Error>)
        ensures
            match in_range(f32_trunc_spec(self.0), i32::MIN as int, i32::MAX as int) {
                Ok(v) => r == Ok::<i32, Error>(v as i32),
                Err(e) => r == Err::<i32, Error>(e),
            },
    {
        match self.trunc_to(i32::MIN as i128, i32::MAX as i128) {
            Ok(v) => Ok(v as i32),
            Err(e) => Err(e),
        }
    }

    /// Truncates toward zero to an unsigned 32-bit integer.
    pub fn trunc_to_u32(self) -> (r: Result<u32, Error>)
        ensures
            match in_range(f32_trunc_spec(self.0), 0, u32::MAX as int) {
                Ok(v) => r == Ok::<u32, Error>(v as u32),
                Err(e) => r == Err::<u32, Error>(e),
            },
    {
        match self.trunc_to(0, u32::MAX as i128) {
            Ok(v) => Ok(v as u32),
            Err(e) => Err(e),
        }
    }

    /// Truncates toward zero to a signed 64-bit integer.
    pub fn trunc_to_i64(self) -> (r: Result<i64, Error>)
        ensures
            match in_range(f32_trunc_spec(self.0), i64::MIN as int, i64::MAX as int) {
                Ok(v) => r == Ok::<i64, Error>(v as i64),
                Err(e) => r == Err::<i64, Error>(e),
            },
    {
        match self.trunc_to(i64::MIN as i128, i64::MAX as i128) {
            Ok(v) => Ok(v as i64),
            Err(e) => Err(e),
        }
    }

    /// Truncates toward zero to an unsigned 64-bit integer.
    pub fn trunc_to_u64(self) -> (r: Result<u64, Error>)
        ensures
            match in_range(f32_trunc_spec(self.0), 0, u64::MAX as int) {
                Ok(v) => r == Ok::<u64, Error>(v as u64),
                Err(e) => r == Err::<u64, Error>(e),
            },
    {
        match self.trunc_to(0, u64::MAX as i128) {
            Ok(v) => Ok(v as u64),
            Err(e) => Err(e),
        }
    }
}

/// The exponent field of a 64-bit pattern.
pub open spec fn f64_exponent(bits: u64) -> nat {
    (f64_magnitude(bits) / 0x10_0000_0000_0000) as nat
}

/// The fraction field of a 64-bit pattern.
pub open spec fn f64_fraction(bits: u64) -> nat {
    (bits % 0x10_0000_0000_0000) as nat
}

/// The integer part of the magnitude that a 64-bit pattern denotes: its
/// significand times 2 to the power of its exponent less the bias and the
/// width of the fraction.
pub open spec fn f64_trunc_magnitude(bits: u64) -> nat {
    if f64_exponent(bits) == 0 {
        scaled(f64_fraction(bits), -1074)
    } else {
        scaled(0x10_0000_0000_0000 + f64_fraction(bits), f64_exponent(bits) - 1075)
    }
}

/// The integer that a 64-bit pattern truncates to.
pub open spec fn f64_trunc_spec(bits: u64) -> Option<int> {
    signed_integer(f64_exponent(bits) != 0x7ff, f64_sign(bits), f64_trunc_magnitude(bits))
}

impl F64 {
    fn trunc_to(self, lo: i128, hi: i128) -> (r: Result<i128, Error>)
        requires
            -0x1_0000_0000_0000_0000 < lo <= hi < 0x1_0000_0000_0000_0000,
        ensures
            match in_range(f64_trunc_spec(self.0), lo as int, hi as int) {
                Ok(v) => r == Ok::<i128, Error>(v as i128),
                Err(e) => r == Err::<i128, Error>(e),
            },
    {
        let e: u64 = self.magnitude() / 0x10_0000_0000_0000;
        let m: u64 = self.0 % 0x10_0000_0000_0000;
        let magnitude = if e == 0 {
            scale(m as u64, -1074)
        } else {
            scale(0x10_0000_0000_0000 + m as u64, e as i32 - 1075)
        };
        fit(e != 0x7ff, self.is_sign_negative(), magnitude, lo, hi, Ghost(f64_trunc_magnitude(self.0)))
    }

    /// Truncates toward zero to a signed 32-bit integer; fails for a NaN, an
    /// infinity and a number out of range.
    pub fn trunc_to_i32(self) -> (r: Result<i32, Error>)
        ensures
            match in_range(f64_trunc_spec(self.0), i32::MIN as int, i32::MAX as int) {
                Ok(v) => r == Ok::<i32, Error>(v as i32),
                Err(e) => r == Err::<i32, Error>(e),
            },
    {
        match self.trunc_to(i32::MIN as i128, i32::MAX as i128) {
            Ok(v) => Ok(v as i32),
            Err(e) => Err(e),
        }
    }

    /// Truncates toward zero to an unsigned 32-bit integer.
    pub fn trunc_to_u32(self) -> (r: Result<u32, Error>)
        ensures
            match in_range(f64_trunc_spec(self.0), 0, u32::MAX as int) {
                Ok(v) => r == Ok::<u32, Error>(v as u32),
                Err(e) => r == Err::<u32, Error>(e),
            },
    {
        match self.trunc_to(0, u32::MAX as i128) {
            Ok(v) => Ok(v as u32),
            Err(e) => Err(e),
        }
    }

    /// Truncates toward zero to a signed 64-bit integer.
    pub fn trunc_to_i64(self) -> (r: Result<i64, Error>)
        ensures
            match in_range(f64_trunc_spec(self.0), i64::MIN as int, i64::MAX as int) {
                Ok(v) => r == Ok::<i64, Error>(v as i64),
                Err(e) => r == Err::<i64, Error>(e),
            },
    {
        match self.trunc_to(i64::MIN as i128, i64::MAX as i128) {
            Ok(v) => Ok(v as i64),
            Err(e) => Err(e),
        }
    }

    /// Truncates toward zero to an unsigned 64-bit integer.
    pub fn trunc_to_u64(self) -> (r: Result<u64, Error>)
        ensures
            match in_range(f64_trunc_spec(self.0), 0, u64::MAX as int) {
                Ok(v) => r == Ok::<u64, Error>(v as u64),
                Err(e) => r == Err::<u64, Error>(e),
            },
    {
        match self.trunc_to(0, u64::MAX as i128) {
            Ok(v) => Ok(v as u64),
            Err(e) => Err(e),
        }
    }
}

/// Whether two values count as equal when a result is compared with an
/// expectation: integers of one type that are the same, or floats of one
/// type that compare equal or are both NaN.
pub open spec fn values_equal(lhs: Value, rhs: Value) -> bool {
    match (lhs, rhs) {
        (Value::I32(a), Value::I32(b)) => a == b,
        (Value::I64(a), Value::I64(b)) => a == b,
        (Value::F32(a), Value::F32(b)) => f32_rel_spec(FloatRelOp::Eq, a, b) || (f32_is_nan(a)
            && f32_is_nan(b)),
        (Value::F64(a), Value::F64(b)) => f64_rel_spec(FloatRelOp::Eq, a, b) || (f64_is_nan(a)
            && f64_is_nan(b)),
        _ => false,
    }
}

/// Compares a result with an expectation.
pub fn is_equal_value(lhs: Value, rhs: Value) -> (equal: bool)
    ensures
        equal == values_equal(lhs, rhs),
{
    match (lhs, rhs) {
        (Value::I32(a), Value::I32(b)) => a == b,
        (Value::I64(a), Value::I64(b)) => a == b,
        (Value::F32(a), Value::F32(b)) => F32::rel(FloatRelOp::Eq, F32(a), F32(b)) || (F32(
            a,
        ).is_nan() && F32(b).is_nan()),
        (Value::F64(a), Value::F64(b)) => F64::rel(FloatRelOp::Eq, F64(a), F64(b)) || (F64(
            a,
        ).is_nan() && F64(b).is_nan()),
        _ => false,
    }
}

} // verus!
