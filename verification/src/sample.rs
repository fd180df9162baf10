//! Derived samplers: booleans, uniform words of both signs and widths, and
//! bounded / ranged integer sampling with the debiased multiply-widen
//! technique.

use vstd::prelude::*;
use vstd::arithmetic::div_mod::{lemma_basic_div, lemma_multiply_divide_lt};

use crate::engine::Rng;
use crate::engine::step;
use crate::engine::steps;
use crate::engine::word;

verus! {

/// The low 32 bits of a word.
pub open spec fn lo32(w: u64) -> u32 {
    w as u32
}

/// The two's-complement reinterpretation of a 64-bit word as signed.
pub open spec fn as_signed64(w: u64) -> i64 {
    if w < 0x8000_0000_0000_0000 {
        w as i64
    } else {
        (w - 0x1_0000_0000_0000_0000) as i64
    }
}

/// The two's-complement reinterpretation of a 32-bit word as signed.
pub open spec fn as_signed32(w: u32) -> i32 {
    if w < 0x8000_0000 {
        w as i32
    } else {
        (w - 0x1_0000_0000) as i32
    }
}

/// The two's-complement reinterpretation of a signed 64-bit value as a word.
pub open spec fn as_unsigned64(a: i64) -> u64 {
    if a >= 0 {
        a as u64
    } else {
        (a + 0x1_0000_0000_0000_0000) as u64
    }
}

/// The two's-complement reinterpretation of a signed 32-bit value as a word.
pub open spec fn as_unsigned32(a: i32) -> u32 {
    if a >= 0 {
        a as u32
    } else {
        (a + 0x1_0000_0000) as u32
    }
}

/// 64-bit addition wrapping modulo 2^64.
pub open spec fn wrap_add64(a: u64, b: u64) -> u64 {
    if a + b > u64::MAX {
        (a + b - 0x1_0000_0000_0000_0000) as u64
    } else {
        (a + b) as u64
    }
}

/// 64-bit subtraction wrapping modulo 2^64.
pub open spec fn wrap_sub64(a: u64, b: u64) -> u64 {
    if a - b < 0 {
        (a - b + 0x1_0000_0000_0000_0000) as u64
    } else {
        (a - b) as u64
    }
}

/// 32-bit addition wrapping modulo 2^32.
pub open spec fn wrap_add32(a: u32, b: u32) -> u32 {
    if a + b > u32::MAX {
        (a + b - 0x1_0000_0000) as u32
    } else {
        (a + b) as u32
    }
}

/// 32-bit subtraction wrapping modulo 2^32.
pub open spec fn wrap_sub32(a: u32, b: u32) -> u32 {
    if a - b < 0 {
        (a - b + 0x1_0000_0000) as u32
    } else {
        (a - b) as u32
    }
}

/// The value drawn from `{0, ..., n}` by the debiased multiply-widen
/// technique from the two words `x` and `y`: it computes
/// `floor((k * (n + 1)) / 2^128)` for a 128-bit mixed value `k`, which is
/// always at most `n`.
pub open spec fn bounded_pick(x: u64, y: u64, n: u64) -> u64 {
    (((x * (n + 1)) / 0x1_0000_0000_0000_0000 + y * (n + 1))
        / 0x1_0000_0000_0000_0000) as u64
}

/// A bounded pick over the zero-width range `{0}` is 0 whatever the two
/// words were: bounded sampling of width zero always returns zero.
pub proof fn lemma_bounded_pick_zero(x: u64, y: u64)
    ensures
        bounded_pick(x, y, 0) == 0,
{
    assert((x as int) * 1 == x && (y as int) * 1 == y);
    lemma_basic_div(x as int, 0x1_0000_0000_0000_0000);
    lemma_basic_div(y as int, 0x1_0000_0000_0000_0000);
}

/// A wrapping sum `lo + d` wraps back to exactly `d` when `lo` is
/// subtracted again: the offset of the sum from `lo` is `d`.
proof fn lemma_wrap_offset64(lo: u64, d: u64)
    ensures
        wrap_sub64(wrap_add64(lo, d), lo) == d,
{
}

/// 32-bit analogue of the wrapping offset round trip.
proof fn lemma_wrap_offset32(lo: u32, d: u32)
    ensures
        wrap_sub32(wrap_add32(lo, d), lo) == d,
{
}

/// Computes the debiased multiply-widen pick of a value in `{0, ..., n}`
/// from two full words of randomness.
fn bounded_core(x: u64, y: u64, n: u64) -> (z: u64)
    ensures
        z == bounded_pick(x, y, n),
        z <= n,
{
    let xw = x as u128;
    let yw = y as u128;
    let nw = n as u128;
    proof {
        assert((x as int) * (n as int) <= 0xffff_ffff_ffff_ffff * 0xffff_ffff_ffff_ffff)
            by (nonlinear_arith)
            requires
                x <= 0xffff_ffff_ffff_ffff,
                n <= 0xffff_ffff_ffff_ffff,
        ;
        assert((y as int) * (n as int) <= 0xffff_ffff_ffff_ffff * 0xffff_ffff_ffff_ffff)
            by (nonlinear_arith)
            requires
                y <= 0xffff_ffff_ffff_ffff,
                n <= 0xffff_ffff_ffff_ffff,
        ;
    }
    let p = xw * nw + xw;
    let u = p >> 64;
    let q = yw * nw + yw;
    proof {
        assert(p >> 64 == p / 0x1_0000_0000_0000_0000) by (bit_vector);
        assert(p == x * (n + 1) && q == y * (n + 1)) by (nonlinear_arith)
            requires
                p == (x as int) * (n as int) + x,
                q == (y as int) * (n as int) + y,
        ;
        assert((x as int) * ((n as int) + 1) < 0x1_0000_0000_0000_0000 * ((n as int) + 1))
            by (nonlinear_arith)
            requires
                x <= 0xffff_ffff_ffff_ffff,
        ;
        lemma_multiply_divide_lt(p as int, 0x1_0000_0000_0000_0000, (n as int) + 1);
        assert(u <= n);
        assert((y as int) * ((n as int) + 1) <= 0xffff_ffff_ffff_ffff * ((n as int) + 1))
            by (nonlinear_arith)
            requires
                y <= 0xffff_ffff_ffff_ffff,
        ;
        assert(u + q < 0x1_0000_0000_0000_0000 * ((n as int) + 1)) by (nonlinear_arith)
            requires
                u <= n,
                q <= 0xffff_ffff_ffff_ffff * ((n as int) + 1),
                n <= 0xffff_ffff_ffff_ffff,
        ;
    }
    let t = u + q;
    let z128 = t >> 64;
    proof {
        assert(t >> 64 == t / 0x1_0000_0000_0000_0000) by (bit_vector);
        lemma_multiply_divide_lt(t as int, 0x1_0000_0000_0000_0000, (n as int) + 1);
        assert(z128 <= n);
    }
    let z = z128 as u64;
    z
}

impl Rng {
    /// Samples a `bool` from the uniform distribution: the top bit of one
    /// drawn word.
    pub fn bool(&mut self) -> (r: bool)
        ensures
            r == (word(old(self)@) >= 0x8000_0000_0000_0000),
            final(self)@ == step(old(self)@),
            final(self)@ != 0,
    {
        self.i64() < 0
    }

    /// Samples an `i32` from the uniform distribution.
    pub fn i32(&mut self) -> (r: i32)
        ensures
            r == as_signed32(lo32(word(old(self)@))),
            final(self)@ == step(old(self)@),
            final(self)@ != 0,
    {
        let w = self.u64();
        let r = #[verifier::truncate] (w as i32);
        proof {
            assert(r == as_signed32(w as u32)) by (bit_vector)
                requires
                    r == (w as i32),
            ;
        }
        r
    }

    /// Samples an `i64` from the uniform distribution.
    pub fn i64(&mut self) -> (r: i64)
        ensures
            r == as_signed64(word(old(self)@)),
            final(self)@ == step(old(self)@),
            final(self)@ != 0,
    {
        let w = self.u64();
        let r = #[verifier::truncate] (w as i64);
        proof {
            assert(r == as_signed64(w)) by (bit_vector)
                requires
                    r == (w as i64),
            ;
        }
        r
    }

    /// Samples a `u32` from the uniform distribution.
    pub fn u32(&mut self) -> (r: u32)
        ensures
            r == lo32(word(old(self)@)),
            final(self)@ == step(old(self)@),
            final(self)@ != 0,
    {
        let w = self.u64();
        #[verifier::truncate] (w as u32)
    }

    /// Samples a `u32` from the uniform distribution over the range
    /// `0 ..= n`. The upper bound is inclusive.
    pub fn bounded_u32(&mut self, n: u32) -> (r: u32)
        ensures
            r == bounded_pick(word(old(self)@), word(step(old(self)@)), n as u64) as u32,
            r <= n,
            final(self)@ == steps(old(self)@, 2),
            final(self)@ != 0,
    {
        let x = self.u64();
        let y = self.u64();
        proof {
            assert(steps(old(self)@, 2) == step(step(old(self)@))) by {
                reveal_with_fuel(steps, 3);
            }
        }
        let z = bounded_core(x, y, n as u64);
        z as u32
    }

    /// Samples a `u64` from the uniform distribution over the range
    /// `0 ..= n`. The upper bound is inclusive.
    pub fn bounded_u64(&mut self, n: u64) -> (r: u64)
        ensures
            r == bounded_pick(word(old(self)@), word(step(old(self)@)), n),
            r <= n,
            final(self)@ == steps(old(self)@, 2),
            final(self)@ != 0,
    {
        let x = self.u64();
        let y = self.u64();
        proof {
            assert(steps(old(self)@, 2) == step(step(old(self)@))) by {
                reveal_with_fuel(steps, 3);
            }
        }
        bounded_core(x, y, n)
    }

    /// Samples a `u64` from the uniform distribution over the range
    /// `lo ..= hi`. Both bounds are inclusive, and the range can wrap
    /// around from `u64::MAX` to `u64::MIN`: the result always lies at a
    /// wrapping offset from `lo` of at most the wrapping width `hi - lo`.
    pub fn between_u64(&mut self, lo: u64, hi: u64) -> (r: u64)
        ensures
            r == wrap_add64(
                lo,
                bounded_pick(word(old(self)@), word(step(old(self)@)), wrap_sub64(hi, lo)),
            ),
            wrap_sub64(r, lo) <= wrap_sub64(hi, lo),
            final(self)@ == steps(old(self)@, 2),
            final(self)@ != 0,
    {
        let span = hi.wrapping_sub(lo);
        let d = self.bounded_u64(span);
        proof {
            lemma_wrap_offset64(lo, d);
        }
        lo.wrapping_add(d)
    }

    /// Samples a `u32` from the uniform distribution over the range
    /// `lo ..= hi`. Both bounds are inclusive, and the range can wrap
    /// around from `u32::MAX` to `u32::MIN`.
    pub fn between_u32(&mut self, lo: u32, hi: u32) -> (r: u32)
        ensures
            r == wrap_add32(
                lo,
                bounded_pick(
                    word(old(self)@),
                    word(step(old(self)@)),
                    wrap_sub32(hi, lo) as u64,
                ) as u32,
            ),
            wrap_sub32(r, lo) <= wrap_sub32(hi, lo),
            final(self)@ == steps(old(self)@, 2),
            final(self)@ != 0,
    {
        let span = hi.wrapping_sub(lo);
        let d = self.bounded_u32(span);
        proof {
            lemma_wrap_offset32(lo, d);
        }
        lo.wrapping_add(d)
    }

    /// Samples an `i64` from the uniform distribution over the range
    /// `lo ..= hi`. Both bounds are inclusive, and the range can wrap
    /// around from `i64::MAX` to `i64::MIN`.
    pub fn between_i64(&mut self, lo: i64, hi: i64) -> (r: i64)
        ensures
            r == as_signed64(
                wrap_add64(
                    as_unsigned64(lo),
                    bounded_pick(
                        word(old(self)@),
                        word(step(old(self)@)),
                        wrap_sub64(as_unsigned64(hi), as_unsigned64(lo)),
                    ),
                ),
            ),
            wrap_sub64(as_unsigned64(r), as_unsigned64(lo)) <= wrap_sub64(
                as_unsigned64(hi),
                as_unsigned64(lo),
            ),
            final(self)@ == steps(old(self)@, 2),
            final(self)@ != 0,
    {
        let ulo = #[verifier::truncate] (lo as u64);
        let uhi = #[verifier::truncate] (hi as u64);
        proof {
            assert(ulo == as_unsigned64(lo) && uhi == as_unsigned64(hi)) by (bit_vector)
                requires
                    ulo == (lo as u64),
                    uhi == (hi as u64),
            ;
        }
        let r = self.between_u64(ulo, uhi);
        let s = #[verifier::truncate] (r as i64);
        proof {
            assert(s == as_signed64(r) && as_unsigned64(as_signed64(r)) == r) by (bit_vector)
                requires
                    s == (r as i64),
            ;
        }
        s
    }

    /// Samples an `i32` from the uniform distribution over the range
    /// `lo ..= hi`. Both bounds are inclusive, and the range can wrap
    /// around from `i32::MAX` to `i32::MIN`.
    pub fn between_i32(&mut self, lo: i32, hi: i32) -> (r: i32)
        ensures
            r == as_signed32(
                wrap_add32(
                    as_unsigned32(lo),
                    bounded_pick(
                        word(old(self)@),
                        word(step(old(self)@)),
                        wrap_sub32(as_unsigned32(hi), as_unsigned32(lo)) as u64,
                    ) as u32,
                ),
            ),
            wrap_sub32(as_unsigned32(r), as_unsigned32(lo)) <= wrap_sub32(
                as_unsigned32(hi),
                as_unsigned32(lo),
            ),
            final(self)@ == steps(old(self)@, 2),
            final(self)@ != 0,
    {
        let ulo = #[verifier::truncate] (lo as u32);
        let uhi = #[verifier::truncate] (hi as u32);
        proof {
            assert(ulo == as_unsigned32(lo) && uhi == as_unsigned32(hi)) by (bit_vector)
                requires
                    ulo == (lo as u32),
                    uhi == (hi as u32),
            ;
        }
        let r = self.between_u32(ulo, uhi);
        let s = #[verifier::truncate] (r as i32);
        proof {
            assert(s == as_signed32(r) && as_unsigned32(as_signed32(r)) == r) by (bit_vector)
                requires
                    s == (r as i32),
            ;
        }
        s
    }
}

} // verus!
