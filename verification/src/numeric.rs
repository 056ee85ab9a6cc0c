//! Integer arithmetic on 32-bit and 64-bit operands.
//!
//! Operands are two's complement integers; an operator that reads them as
//! unsigned goes through `u32_of` / `u64_of`.

use vstd::prelude::*;
use vstd::arithmetic::power2::{pow2, lemma2_to64, lemma2_to64_rest, lemma_pow2_unfold};
use vstd::std_specs::bits::{
    u32_leading_zeros, u32_trailing_zeros, u64_leading_zeros, u64_trailing_zeros,
    axiom_u32_leading_zeros, axiom_u32_trailing_zeros, axiom_u64_leading_zeros,
    axiom_u64_trailing_zeros,
};
use crate::inst::{IntBinOp, IntRelOp, IntUnOp};
use crate::value::{Error, u32_of, i32_of, u64_of, i64_of, to_u32, to_i32, to_u64, to_i64};

verus! {

/// The number of ones in the binary notation of `x`.
pub open spec fn popcount(x: nat) -> nat
    decreases x,
{
    if x == 0 {
        0
    } else {
        (x % 2) + popcount(x / 2)
    }
}

/// A number below 2^k has at most `k` ones.
pub proof fn lemma_popcount_bound(x: nat, k: nat)
    requires
        x < pow2(k),
    ensures
        popcount(x) <= k,
    decreases k,
{
    if x != 0 {
        if k == 0 {
            lemma2_to64();
        } else {
            lemma_pow2_unfold(k);
            lemma_popcount_bound(x / 2, (k - 1) as nat);
        }
    }
}

fn count_ones(x: u64) -> (r: u32)
    ensures
        r == popcount(x as nat),
        r <= 64,
{
    let mut rest: u64 = x;
    let mut ones: u32 = 0;
    let mut bits: u32 = 64;
    proof {
        lemma2_to64();
        lemma2_to64_rest();
    }
    while rest != 0
        invariant
            ones + popcount(rest as nat) == popcount(x as nat),
            rest < pow2(bits as nat),
            ones + bits <= 64,
        decreases rest,
    {
        proof {
            if bits == 0 {
                lemma2_to64();
            } else {
                lemma_pow2_unfold(bits as nat);
            }
        }
        ones = ones + (rest % 2) as u32;
        rest = rest / 2;
        bits = bits - 1;
    }
    ones
}

/// The quotient of `x` by `d` rounded toward zero.
pub open spec fn trunc_div(x: int, d: int) -> int
    recommends
        d != 0,
{
    if x >= 0 && d > 0 {
        x / d
    } else if x < 0 && d < 0 {
        (-x) / (-d)
    } else if x < 0 {
        -((-x) / d)
    } else {
        -(x / (-d))
    }
}

/// The remainder that goes with `trunc_div`: it has the sign of `x`.
pub open spec fn trunc_rem(x: int, d: int) -> int
    recommends
        d != 0,
{
    if x >= 0 && d > 0 {
        x % d
    } else if x < 0 && d < 0 {
        -((-x) % (-d))
    } else if x < 0 {
        -((-x) % d)
    } else {
        x % (-d)
    }
}

/// The truncated quotient is no larger in magnitude than the dividend, and at
/// most half of it unless the divisor is 1 or -1.
pub proof fn lemma_trunc_div_range(x: int, d: int)
    requires
        d != 0,
    ensures
        x >= 0 ==> -x <= trunc_div(x, d) <= x,
        x < 0 ==> x <= trunc_div(x, d) <= -x,
        x == 0 ==> trunc_div(x, d) == 0,
        d == 1 ==> trunc_div(x, d) == x,
        d == -1 ==> trunc_div(x, d) == -x,
        d > 1 || d < -1 ==> -(x / 2) <= trunc_div(x, d) <= x / 2 || x / 2 <= trunc_div(x, d) <= -(x / 2),
{
    let ax: int = if x >= 0 { x } else { -x };
    let ad: int = if d >= 0 { d } else { -d };
    assert(0 <= ax / ad <= ax) by (nonlinear_arith)
        requires
            ax >= 0,
            ad > 0,
    ;
    assert(ad == 1 ==> ax / ad == ax) by (nonlinear_arith);
    if ad >= 2 {
        vstd::arithmetic::div_mod::lemma_div_is_ordered_by_denominator(ax, 2, ad);
    }
}

/// The truncated remainder is smaller in magnitude than the divisor.
pub proof fn lemma_trunc_rem_range(x: int, d: int)
    requires
        d != 0,
    ensures
        d > 0 ==> -d < trunc_rem(x, d) < d,
        d < 0 ==> d < trunc_rem(x, d) < -d,
{
    let ax: int = if x >= 0 { x } else { -x };
    let ad: int = if d >= 0 { d } else { -d };
    assert(0 <= ax % ad < ad) by (nonlinear_arith)
        requires
            ax >= 0,
            ad > 0,
    ;
}

/// What an `i32` comparison yields.
pub open spec fn i32_rel_spec(op: IntRelOp, a: i32, b: i32) -> bool {
    match op {
        IntRelOp::Eq => a == b,
        IntRelOp::Ne => a != b,
        IntRelOp::LtS => a < b,
        IntRelOp::LtU => u32_of(a) < u32_of(b),
        IntRelOp::GtS => a > b,
        IntRelOp::GtU => u32_of(a) > u32_of(b),
        IntRelOp::LeS => a <= b,
        IntRelOp::LeU => u32_of(a) <= u32_of(b),
        IntRelOp::GeS => a >= b,
        IntRelOp::GeU => u32_of(a) >= u32_of(b),
    }
}

/// Compares two `i32` operands, reading them as signed or unsigned as the
/// operator says.
pub fn i32_rel(op: IntRelOp, a: i32, b: i32) -> (r: bool)
    ensures
        r == i32_rel_spec(op, a, b),
{
    match op {
        IntRelOp::Eq => a == b,
        IntRelOp::Ne => a != b,
        IntRelOp::LtS => a < b,
        IntRelOp::LtU => to_u32(a) < to_u32(b),
        IntRelOp::GtS => a > b,
        IntRelOp::GtU => to_u32(a) > to_u32(b),
        IntRelOp::LeS => a <= b,
        IntRelOp::LeU => to_u32(a) <= to_u32(b),
        IntRelOp::GeS => a >= b,
        IntRelOp::GeU => to_u32(a) >= to_u32(b),
    }
}

/// The integer in `i32`'s range that is congruent to `x` modulo 2^32.
pub open spec fn wrap_i32(x: int) -> i32 {
    ((x + 0x8000_0000) % 0x1_0000_0000 - 0x8000_0000) as i32
}

/// `x` rotated left by `n` modulo 32 bits.
pub open spec fn u32_rotl(x: u32, n: u32) -> u32 {
    let k = n % 32;
    if k == 0 {
        x
    } else {
        (x << k) | (x >> ((32 - k) as u32))
    }
}

/// `x` rotated right by `n` modulo 32 bits.
pub open spec fn u32_rotr(x: u32, n: u32) -> u32 {
    let k = n % 32;
    if k == 0 {
        x
    } else {
        (x >> k) | (x << ((32 - k) as u32))
    }
}

/// What an `i32` unary operator yields.
pub open spec fn i32_unary_spec(op: IntUnOp, a: i32) -> i32 {
    match op {
        IntUnOp::Clz => u32_leading_zeros(u32_of(a)) as i32,
        IntUnOp::Ctz => u32_trailing_zeros(u32_of(a)) as i32,
        IntUnOp::Popcnt => popcount(u32_of(a) as nat) as i32,
    }
}

/// Counts the leading zeros, the trailing zeros or the ones of `a`'s 32 bits.
pub fn i32_unary(op: IntUnOp, a: i32) -> (r: i32)
    ensures
        r == i32_unary_spec(op, a),
        0 <= r <= 32,
{
    broadcast use {axiom_u32_leading_zeros, axiom_u32_trailing_zeros};

    match op {
        IntUnOp::Clz => to_u32(a).leading_zeros() as i32,
        IntUnOp::Ctz => to_u32(a).trailing_zeros() as i32,
        IntUnOp::Popcnt => {
            proof {
                lemma2_to64();
                lemma_popcount_bound(u32_of(a) as nat, 32);
            }
            count_ones(to_u32(a) as u64) as i32
        },
    }
}

/// What an `i32` binary operator yields: add, sub and mul wrap; division and
/// remainder fail on a zero divisor, and signed division on `MIN / -1`; shifts
/// and rotations take their count modulo 32.
pub open spec fn i32_binary_spec(op: IntBinOp, a: i32, b: i32) -> Result<i32, Error> {
    match op {
        IntBinOp::Add => Ok(wrap_i32(a + b)),
        IntBinOp::Sub => Ok(wrap_i32(a - b)),
        IntBinOp::Mul => Ok(wrap_i32(a * b)),
        IntBinOp::DivS => if b == 0 {
            Err(Error::IntegerDivByZero)
        } else if a == i32::MIN && b == -1 {
            Err(Error::IntegerOverflow)
        } else {
            Ok(trunc_div(a as int, b as int) as i32)
        },
        IntBinOp::DivU => if b == 0 {
            Err(Error::IntegerDivByZero)
        } else {
            Ok(i32_of((u32_of(a) / u32_of(b)) as u32))
        },
        IntBinOp::RemS => if b == 0 {
            Err(Error::IntegerDivByZero)
        } else {
            Ok(trunc_rem(a as int, b as int) as i32)
        },
        IntBinOp::RemU => if b == 0 {
            Err(Error::IntegerDivByZero)
        } else {
            Ok(i32_of((u32_of(a) % u32_of(b)) as u32))
        },
        IntBinOp::And => Ok(i32_of(u32_of(a) & u32_of(b))),
        IntBinOp::Or => Ok(i32_of(u32_of(a) | u32_of(b))),
        IntBinOp::Xor => Ok(i32_of(u32_of(a) ^ u32_of(b))),
        IntBinOp::Shl => Ok(i32_of(u32_of(a) << (u32_of(b) % 32))),
        IntBinOp::ShrS => Ok(a >> (u32_of(b) % 32)),
        IntBinOp::ShrU => Ok(i32_of(u32_of(a) >> (u32_of(b) % 32))),
        IntBinOp::Rotl => Ok(i32_of(u32_rotl(u32_of(a), u32_of(b)))),
        IntBinOp::Rotr => Ok(i32_of(u32_rotr(u32_of(a), u32_of(b)))),
    }
}

fn u32_rotate_left(x: u32, n: u32) -> (r: u32)
    ensures
        r == u32_rotl(x, n),
{
    let k: u32 = n % 32;
    if k == 0 {
        x
    } else {
        (x << k) | (x >> (32 - k))
    }
}

fn u32_rotate_right(x: u32, n: u32) -> (r: u32)
    ensures
        r == u32_rotr(x, n),
{
    let k: u32 = n % 32;
    if k == 0 {
        x
    } else {
        (x >> k) | (x << (32 - k))
    }
}

/// Applies a binary operator to two `i32` operands.
pub fn i32_binary(op: IntBinOp, a: i32, b: i32) -> (r: Result<i32, Error>)
    ensures
        r == i32_binary_spec(op, a, b),
{
    match op {
        IntBinOp::Add => Ok(a.wrapping_add(b)),
        IntBinOp::Sub => Ok(a.wrapping_sub(b)),
        IntBinOp::Mul => {
            proof {
                lemma_wrap_i32_mul(a, b);
            }
            Ok(a.wrapping_mul(b))
        },
        IntBinOp::DivS => {
            if b == 0 {
                Err(Error::IntegerDivByZero)
            } else {
                match a.checked_div(b) {
                    Some(q) => {
                        proof {
                            lemma_trunc_div_range(a as int, b as int);
                        }
                        Ok(q)
                    },
                    None => {
                        proof {
                            lemma_trunc_div_range(a as int, b as int);
                        }
                        Err(Error::IntegerOverflow)
                    },
                }
            }
        },
        IntBinOp::DivU => {
            if b == 0 {
                Err(Error::IntegerDivByZero)
            } else {
                Ok(to_i32(to_u32(a) / to_u32(b)))
            }
        },
        IntBinOp::RemS => {
            if b == 0 {
                Err(Error::IntegerDivByZero)
            } else if b == -1 {
                Ok(0)
            } else {
                proof {
                    lemma_trunc_rem_range(a as int, b as int);
                }
                match a.checked_rem(b) {
                    Some(m) => Ok(m),
                    None => Ok(0),
                }
            }
        },
        IntBinOp::RemU => {
            if b == 0 {
                Err(Error::IntegerDivByZero)
            } else {
                Ok(to_i32(to_u32(a) % to_u32(b)))
            }
        },
        IntBinOp::And => Ok(to_i32(to_u32(a) & to_u32(b))),
        IntBinOp::Or => Ok(to_i32(to_u32(a) | to_u32(b))),
        IntBinOp::Xor => Ok(to_i32(to_u32(a) ^ to_u32(b))),
        IntBinOp::Shl => Ok(to_i32(to_u32(a).wrapping_shl(to_u32(b)))),
        IntBinOp::ShrS => Ok(a.wrapping_shr(to_u32(b))),
        IntBinOp::ShrU => Ok(to_i32(to_u32(a).wrapping_shr(to_u32(b)))),
        IntBinOp::Rotl => Ok(to_i32(u32_rotate_left(to_u32(a), to_u32(b)))),
        IntBinOp::Rotr => Ok(to_i32(u32_rotate_right(to_u32(a), to_u32(b)))),
    }
}

proof fn lemma_wrap_i32_mul(a: i32, b: i32)
    ensures
        vstd::wrapping::i32_specs::wrapping_mul(a, b) == wrap_i32(a * b),
{
    let p: int = a * b;
    assert(vstd::wrapping::i32_specs::signed_crop(p) == wrap_i32(p));
}

/// What an `i64` comparison yields.
pub open spec fn i64_rel_spec(op: IntRelOp, a: i64, b: i64) -> bool {
    match op {
        IntRelOp::Eq => a == b,
        IntRelOp::Ne => a != b,
        IntRelOp::LtS => a < b,
        IntRelOp::LtU => u64_of(a) < u64_of(b),
        IntRelOp::GtS => a > b,
        IntRelOp::GtU => u64_of(a) > u64_of(b),
        IntRelOp::LeS => a <= b,
        IntRelOp::LeU => u64_of(a) <= u64_of(b),
        IntRelOp::GeS => a >= b,
        IntRelOp::GeU => u64_of(a) >= u64_of(b),
    }
}

/// Compares two `i64` operands, reading them as signed or unsigned as the
/// operator says.
pub fn i64_rel(op: IntRelOp, a: i64, b: i64) -> (r: bool)
    ensures
        r == i64_rel_spec(op, a, b),
{
    match op {
        IntRelOp::Eq => a == b,
        IntRelOp::Ne => a != b,
        IntRelOp::LtS => a < b,
        IntRelOp::LtU => to_u64(a) < to_u64(b),
        IntRelOp::GtS => a > b,
        IntRelOp::GtU => to_u64(a) > to_u64(b),
        IntRelOp::LeS => a <= b,
        IntRelOp::LeU => to_u64(a) <= to_u64(b),
        IntRelOp::GeS => a >= b,
        IntRelOp::GeU => to_u64(a) >= to_u64(b),
    }
}

/// The integer in `i64`'s range that is congruent to `x` modulo 2^64.
pub open spec fn wrap_i64(x: int) -> i64 {
    ((x + 0x8000_0000_0000_0000) % 0x1_0000_0000_0000_0000 - 0x8000_0000_0000_0000) as i64
}

/// `x` rotated left by `n` modulo 64 bits.
pub open spec fn u64_rotl(x: u64, n: u64) -> u64 {
    let k = n % 64;
    if k == 0 {
        x
    } else {
        (x << k) | (x >> ((64 - k) as u64))
    }
}

/// `x` rotated right by `n` modulo 64 bits.
pub open spec fn u64_rotr(x: u64, n: u64) -> u64 {
    let k = n % 64;
    if k == 0 {
        x
    } else {
        (x >> k) | (x << ((64 - k) as u64))
    }
}

/// What an `i64` unary operator yields.
pub open spec fn i64_unary_spec(op: IntUnOp, a: i64) -> i64 {
    match op {
        IntUnOp::Clz => u64_leading_zeros(u64_of(a)) as i64,
        IntUnOp::Ctz => u64_trailing_zeros(u64_of(a)) as i64,
        IntUnOp::Popcnt => popcount(u64_of(a) as nat) as i64,
    }
}

/// Counts the leading zeros, the trailing zeros or the ones of `a`'s 64 bits.
pub fn i64_unary(op: IntUnOp, a: i64) -> (r: i64)
    ensures
        r == i64_unary_spec(op, a),
        0 <= r <= 64,
{
    broadcast use {axiom_u64_leading_zeros, axiom_u64_trailing_zeros};

    match op {
        IntUnOp::Clz => to_u64(a).leading_zeros() as i64,
        IntUnOp::Ctz => to_u64(a).trailing_zeros() as i64,
        IntUnOp::Popcnt => {
            proof {
                lemma2_to64();
                lemma_popcount_bound(u64_of(a) as nat, 64);
            }
            count_ones(to_u64(a)) as i64
        },
    }
}

/// What an `i64` binary operator yields: add, sub and mul wrap; division and
/// remainder fail on a zero divisor, and signed division on `MIN / -1`; shifts
/// and rotations take their count modulo 64.
pub open spec fn i64_binary_spec(op: IntBinOp, a: i64, b: i64) -> Result<i64, Error> {
    match op {
        IntBinOp::Add => Ok(wrap_i64(a + b)),
        IntBinOp::Sub => Ok(wrap_i64(a - b)),
        IntBinOp::Mul => Ok(wrap_i64(a * b)),
        IntBinOp::DivS => if b == 0 {
            Err(Error::IntegerDivByZero)
        } else if a == i64::MIN && b == -1 {
            Err(Error::IntegerOverflow)
        } else {
            Ok(trunc_div(a as int, b as int) as i64)
        },
        IntBinOp::DivU => if b == 0 {
            Err(Error::IntegerDivByZero)
        } else {
            Ok(i64_of((u64_of(a) / u64_of(b)) as u64))
        },
        IntBinOp::RemS => if b == 0 {
            Err(Error::IntegerDivByZero)
        } else {
            Ok(trunc_rem(a as int, b as int) as i64)
        },
        IntBinOp::RemU => if b == 0 {
            Err(Error::IntegerDivByZero)
        } else {
            Ok(i64_of((u64_of(a) % u64_of(b)) as u64))
        },
        IntBinOp::And => Ok(i64_of(u64_of(a) & u64_of(b))),
        IntBinOp::Or => Ok(i64_of(u64_of(a) | u64_of(b))),
        IntBinOp::Xor => Ok(i64_of(u64_of(a) ^ u64_of(b))),
        IntBinOp::Shl => Ok(i64_of(u64_of(a) << (u64_of(b) % 64))),
        IntBinOp::ShrS => Ok(a >> (u64_of(b) % 64)),
        IntBinOp::ShrU => Ok(i64_of(u64_of(a) >> (u64_of(b) % 64))),
        IntBinOp::Rotl => Ok(i64_of(u64_rotl(u64_of(a), u64_of(b)))),
        IntBinOp::Rotr => Ok(i64_of(u64_rotr(u64_of(a), u64_of(b)))),
    }
}

fn u64_rotate_left(x: u64, n: u64) -> (r: u64)
    ensures
        r == u64_rotl(x, n),
{
    let k: u64 = n % 64;
    if k == 0 {
        x
    } else {
        (x << k) | (x >> (64 - k))
    }
}

fn u64_rotate_right(x: u64, n: u64) -> (r: u64)
    ensures
        r == u64_rotr(x, n),
{
    let k: u64 = n % 64;
    if k == 0 {
        x
    } else {
        (x >> k) | (x << (64 - k))
    }
}

/// Applies a binary operator to two `i64` operands.
pub fn i64_binary(op: IntBinOp, a: i64, b: i64) -> (r: Result<i64, Error>)
    ensures
        r == i64_binary_spec(op, a, b),
{
    match op {
        IntBinOp::Add => Ok(a.wrapping_add(b)),
        IntBinOp::Sub => Ok(a.wrapping_sub(b)),
        IntBinOp::Mul => {
            proof {
                lemma_wrap_i64_mul(a, b);
            }
            Ok(a.wrapping_mul(b))
        },
        IntBinOp::DivS => {
            if b == 0 {
                Err(Error::IntegerDivByZero)
            } else {
                match a.checked_div(b) {
                    Some(q) => {
                        proof {
                            lemma_trunc_div_range(a as int, b as int);
                        }
                        Ok(q)
                    },
                    None => {
                        proof {
                            lemma_trunc_div_range(a as int, b as int);
                        }
                        Err(Error::IntegerOverflow)
                    },
                }
            }
        },
        IntBinOp::DivU => {
            if b == 0 {
                Err(Error::IntegerDivByZero)
            } else {
                Ok(to_i64(to_u64(a) / to_u64(b)))
            }
        },
        IntBinOp::RemS => {
            if b == 0 {
                Err(Error::IntegerDivByZero)
            } else if b == -1 {
                Ok(0)
            } else {
                proof {
                    lemma_trunc_rem_range(a as int, b as int);
                }
                match a.checked_rem(b) {
                    Some(m) => Ok(m),
                    None => Ok(0),
                }
            }
        },
        IntBinOp::RemU => {
            if b == 0 {
                Err(Error::IntegerDivByZero)
            } else {
                Ok(to_i64(to_u64(a) % to_u64(b)))
            }
        },
        IntBinOp::And => Ok(to_i64(to_u64(a) & to_u64(b))),
        IntBinOp::Or => Ok(to_i64(to_u64(a) | to_u64(b))),
        IntBinOp::Xor => Ok(to_i64(to_u64(a) ^ to_u64(b))),
        IntBinOp::Shl => Ok(to_i64(to_u64(a).wrapping_shl((to_u64(b) % 64) as u32))),
        IntBinOp::ShrS => Ok(a.wrapping_shr((to_u64(b) % 64) as u32)),
        IntBinOp::ShrU => Ok(to_i64(to_u64(a).wrapping_shr((to_u64(b) % 64) as u32))),
        IntBinOp::Rotl => Ok(to_i64(u64_rotate_left(to_u64(a), to_u64(b)))),
        IntBinOp::Rotr => Ok(to_i64(u64_rotate_right(to_u64(a), to_u64(b)))),
    }
}

proof fn lemma_wrap_i64_mul(a: i64, b: i64)
    ensures
        vstd::wrapping::i64_specs::wrapping_mul(a, b) == wrap_i64(a * b),
{
    let p: int = a * b;
    assert(vstd::wrapping::i64_specs::signed_crop(p) == wrap_i64(p));
}

} // verus!
