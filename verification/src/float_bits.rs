//! Float sampling, expressed over IEEE-754 bit patterns: one signed word is
//! scaled by 2^-63 and folded into the unit interval by dropping its sign.
//! The rounding of the conversion to each float width is carried out here in
//! integer arithmetic, so the exact bit pattern is pinned by the contracts;
//! reinterpreting the bits as a float is left to the caller.

use vstd::prelude::*;
use vstd::std_specs::bits::axiom_u64_leading_zeros;
use vstd::std_specs::bits::axiom_u64_trailing_zeros;
use vstd::std_specs::bits::u64_leading_zeros;
use vstd::std_specs::bits::u64_trailing_zeros;

use crate::engine::Rng;
use crate::engine::step;
use crate::engine::word;

verus! {

/// The magnitude of the two's-complement signed reading of `w`; at most
/// 2^63, and zero only for `w == 0`.
pub open spec fn magnitude64(w: u64) -> u64 {
    if w < 0x8000_0000_0000_0000 {
        w
    } else {
        (0x1_0000_0000_0000_0000 - w) as u64
    }
}

/// The double-precision bit pattern of `magnitude64(w) * 2^-63`, rounded to
/// nearest with ties to even. The sign is dropped, so zero is always +0 and
/// the result lies in the closed unit interval.
pub open spec fn f64_bits_of(w: u64) -> u64 {
    let a = magnitude64(w);
    if a == 0 {
        0
    } else {
        let n = (63 - u64_leading_zeros(a)) as u64;
        if n <= 52 {
            ((n + 960) as u64) << 52 | ((a << ((52 - n) as u64)) & 0xf_ffff_ffff_ffff)
        } else {
            let shift = (n - 52) as u64;
            let keep = a >> shift;
            let rem = a & (((1u64 << shift) - 1) as u64);
            let half = 1u64 << ((shift - 1) as u64);
            let up = rem > half || (rem == half && (keep & 1) == 1);
            let keep2 = if up {
                (keep + 1) as u64
            } else {
                keep
            };
            if keep2 == 0x20_0000_0000_0000 {
                ((n + 961) as u64) << 52 | ((keep2 >> 1) & 0xf_ffff_ffff_ffff)
            } else {
                ((n + 960) as u64) << 52 | (keep2 & 0xf_ffff_ffff_ffff)
            }
        }
    }
}

/// The single-precision bit pattern of `magnitude64(w) * 2^-63`, rounded to
/// nearest with ties to even. The sign is dropped, so zero is always +0 and
/// the result lies in the closed unit interval.
pub open spec fn f32_bits_of(w: u64) -> u32 {
    let a = magnitude64(w);
    if a == 0 {
        0
    } else {
        let n = (63 - u64_leading_zeros(a)) as u64;
        if n <= 23 {
            (((n + 64) as u32) << 23) | (((a << ((23 - n) as u64)) as u32) & 0x7f_ffff)
        } else {
            let shift = (n - 23) as u64;
            let keep = a >> shift;
            let rem = a & (((1u64 << shift) - 1) as u64);
            let half = 1u64 << ((shift - 1) as u64);
            let up = rem > half || (rem == half && (keep & 1) == 1);
            let keep2 = if up {
                (keep + 1) as u64
            } else {
                keep
            };
            if keep2 == 0x100_0000 {
                (((n + 65) as u32) << 23) | (((keep2 >> 1) as u32) & 0x7f_ffff)
            } else {
                (((n + 64) as u32) << 23) | ((keep2 as u32) & 0x7f_ffff)
            }
        }
    }
}

/// The bit pattern of the Bernoulli comparison threshold built from `w`:
/// an exponent taken from the lowest set bit and a mantissa from the top
/// bits. Always a finite double strictly below 1.
pub open spec fn bernoulli_bits_of(w: u64) -> u64 {
    ((((1022 - u64_trailing_zeros(w)) as u64) << 52) + (w >> 12)) as u64
}

/// Range facts for the rounding step of the double-precision conversion.
proof fn lemma_f64_round(a: u64, n: u64, np1: u64, shift: u64, keep: u64, keep2: u64)
    by (bit_vector)
    requires
        1 <= a,
        a <= 0x8000_0000_0000_0000,
        53 <= n,
        n <= 63,
        np1 == n + 1,
        (a >> n) & 1 != 0,
        a >> np1 == 0,
        shift == n - 52,
        keep == a >> shift,
        keep2 == keep || keep2 == keep + 1,
        keep2 == keep + 1 ==> (a & (((1u64 << shift) - 1) as u64)) >= (1u64 << ((shift - 1) as u64)),
    ensures
        0x10_0000_0000_0000 <= keep && keep < 0x20_0000_0000_0000,
        keep2 <= 0x20_0000_0000_0000,
        keep2 == 0x20_0000_0000_0000 ==> n <= 62,
        keep2 < 0x20_0000_0000_0000 ==> (((n + 960) as u64) << 52 | (keep2
            & 0xf_ffff_ffff_ffff)) <= 0x3ff0_0000_0000_0000,
        keep2 == 0x20_0000_0000_0000 ==> (((n + 961) as u64) << 52 | ((keep2 >> 1)
            & 0xf_ffff_ffff_ffff)) <= 0x3ff0_0000_0000_0000,
{
}

/// Range facts for the rounding step of the single-precision conversion.
proof fn lemma_f32_round(a: u64, n: u64, np1: u64, shift: u64, keep: u64, keep2: u64)
    by (bit_vector)
    requires
        1 <= a,
        a <= 0x8000_0000_0000_0000,
        24 <= n,
        n <= 63,
        np1 == n + 1,
        (a >> n) & 1 != 0,
        a >> np1 == 0,
        shift == n - 23,
        keep == a >> shift,
        keep2 == keep || keep2 == keep + 1,
        keep2 == keep + 1 ==> (a & (((1u64 << shift) - 1) as u64)) >= (1u64 << ((shift - 1) as u64)),
    ensures
        0x80_0000 <= keep && keep < 0x100_0000,
        keep2 <= 0x100_0000,
        keep2 == 0x100_0000 ==> n <= 62,
        keep2 < 0x100_0000 ==> ((((n + 64) as u32) << 23) | ((keep2 as u32) & 0x7f_ffff))
            <= 0x3f80_0000,
        keep2 == 0x100_0000 ==> ((((n + 65) as u32) << 23) | (((keep2 >> 1) as u32)
            & 0x7f_ffff)) <= 0x3f80_0000,
{
}

impl Rng {
    /// Samples the single-precision bit pattern from a distribution that
    /// approximates the uniform distribution over the real interval [0, 1]:
    /// a real sample rounded to the nearest multiple of 2^-63, then to the
    /// nearest representable value. The sign bit is always clear, so a zero
    /// output is +0, never -0.
    pub fn float32_bits(&mut self) -> (bits: u32)
        ensures
            bits == f32_bits_of(word(old(self)@)),
            bits <= 0x3f80_0000,
            bits < 0x8000_0000,
            final(self)@ == step(old(self)@),
            final(self)@ != 0,
    {
        let w = self.u64();
        let a = if w < 0x8000_0000_0000_0000 {
            w
        } else {
            0u64.wrapping_sub(w)
        };
        if a == 0 {
            return 0;
        }
        let lz = a.leading_zeros();
        proof {
            axiom_u64_leading_zeros(a);
        }
        let n = 63 - (lz as u64);
        let np1 = n + 1;
        proof {
            assert(a == magnitude64(w) && a <= 0x8000_0000_0000_0000);
            assert((a >> n) & 1 != 0 && a >> np1 == 0 && a <= 0x8000_0000_0000_0000)
                by (bit_vector)
                requires
                    n == 63 - (lz as u64),
                    np1 == n + 1,
                    lz <= 63,
                    (a >> ((63 - (lz as u64)) as u64)) & 1 != 0,
                    a >> ((64 - (lz as u64)) as u64) == 0,
                    a <= 0x8000_0000_0000_0000,
            ;
        }
        if n <= 23 {
            let bits = (((n + 64) as u32) << 23) | ((#[verifier::truncate] ((a << ((23 - n)
                as u64)) as u32)) & 0x7f_ffff);
            proof {
                assert(bits <= 0x3f80_0000) by (bit_vector)
                    requires
                        n <= 23,
                        bits == ((((n + 64) as u64) as u32) << 23) | (((a << ((23 - n) as u64))
                            as u32) & 0x7f_ffff),
                ;
            }
            bits
        } else {
            let shift = n - 23;
            let keep = a >> shift;
            proof {
                assert((1u64 << shift) >= 1) by (bit_vector)
                    requires
                        shift <= 63,
                ;
            }
            let rem = a & (((1u64 << shift) - 1) as u64);
            let half = 1u64 << (shift - 1);
            let up = rem > half || (rem == half && (keep & 1) == 1);
            proof {
                assert(keep < 0xffff_ffff_ffff_ffff) by (bit_vector)
                    requires
                        keep == a >> shift,
                        1 <= shift,
                ;
            }
            let keep2 = if up {
                keep + 1
            } else {
                keep
            };
            proof {
                lemma_f32_round(a, n, np1, shift, keep, keep2);
            }
            if keep2 == 0x100_0000 {
                (((n + 65) as u32) << 23) | ((#[verifier::truncate] ((keep2 >> 1) as u32))
                    & 0x7f_ffff)
            } else {
                (((n + 64) as u32) << 23) | ((#[verifier::truncate] (keep2 as u32)) & 0x7f_ffff)
            }
        }
    }

    /// Samples the double-precision bit pattern from a distribution that
    /// approximates the uniform distribution over the real interval [0, 1]:
    /// a real sample rounded to the nearest multiple of 2^-63, then to the
    /// nearest representable value. The sign bit is always clear, so a zero
    /// output is +0, never -0.
    pub fn float64_bits(&mut self) -> (bits: u64)
        ensures
            bits == f64_bits_of(word(old(self)@)),
            bits <= 0x3ff0_0000_0000_0000,
            bits < 0x8000_0000_0000_0000,
            final(self)@ == step(old(self)@),
            final(self)@ != 0,
    {
        let w = self.u64();
        let a = if w < 0x8000_0000_0000_0000 {
            w
        } else {
            0u64.wrapping_sub(w)
        };
        if a == 0 {
            return 0;
        }
        let lz = a.leading_zeros();
        proof {
            axiom_u64_leading_zeros(a);
        }
        let n = 63 - (lz as u64);
        let np1 = n + 1;
        proof {
            assert(a == magnitude64(w) && a <= 0x8000_0000_0000_0000);
            assert((a >> n) & 1 != 0 && a >> np1 == 0 && a <= 0x8000_0000_0000_0000)
                by (bit_vector)
                requires
                    n == 63 - (lz as u64),
                    np1 == n + 1,
                    lz <= 63,
                    (a >> ((63 - (lz as u64)) as u64)) & 1 != 0,
                    a >> ((64 - (lz as u64)) as u64) == 0,
                    a <= 0x8000_0000_0000_0000,
            ;
        }
        if n <= 52 {
            let bits = ((n + 960) << 52) | ((a << ((52 - n) as u64)) & 0xf_ffff_ffff_ffff);
            proof {
                assert(bits <= 0x3ff0_0000_0000_0000) by (bit_vector)
                    requires
                        n <= 52,
                        bits == (((n + 960) as u64) << 52) | ((a << ((52 - n) as u64))
                            & 0xf_ffff_ffff_ffff),
                ;
            }
            bits
        } else {
            let shift = n - 52;
            let keep = a >> shift;
            proof {
                assert((1u64 << shift) >= 1) by (bit_vector)
                    requires
                        shift <= 63,
                ;
            }
            let rem = a & (((1u64 << shift) - 1) as u64);
            let half = 1u64 << (shift - 1);
            let up = rem > half || (rem == half && (keep & 1) == 1);
            proof {
                assert(keep < 0xffff_ffff_ffff_ffff) by (bit_vector)
                    requires
                        keep == a >> shift,
                        1 <= shift,
                ;
            }
            let keep2 = if up {
                keep + 1
            } else {
                keep
            };
            proof {
                lemma_f64_round(a, n, np1, shift, keep, keep2);
            }
            if keep2 == 0x20_0000_0000_0000 {
                ((n + 961) << 52) | ((keep2 >> 1) & 0xf_ffff_ffff_ffff)
            } else {
                ((n + 960) << 52) | (keep2 & 0xf_ffff_ffff_ffff)
            }
        }
    }

    /// Samples the bit pattern of the comparison threshold used for
    /// Bernoulli sampling: a double in [0, 1) whose exponent comes from the
    /// position of the lowest set bit of one drawn word and whose mantissa
    /// from the word's top bits. Comparing it against a probability `p`
    /// samples `true` exactly with probability `p` for every `p` in [0, 1]
    /// that is an exact multiple of 2^-128, under the idealized assumption
    /// that the word stream is uniform; in particular the threshold is
    /// never negative and never reaches 1.
    pub fn bernoulli_threshold(&mut self) -> (bits: u64)
        ensures
            bits == bernoulli_bits_of(word(old(self)@)),
            bits < 0x3ff0_0000_0000_0000,
            bits < 0x8000_0000_0000_0000,
            final(self)@ == step(old(self)@),
            final(self)@ != 0,
    {
        let w = self.u64();
        let tz = w.trailing_zeros();
        proof {
            axiom_u64_trailing_zeros(w);
        }
        let e = 1022 - (tz as u64);
        proof {
            assert((e << 52) + (w >> 12) <= 0xffff_ffff_ffff_ffff) by (bit_vector)
                requires
                    e <= 1022,
            ;
        }
        let bits = (e << 52) + (w >> 12);
        proof {
            assert(bits < 0x3ff0_0000_0000_0000) by (bit_vector)
                requires
                    e <= 1022,
                    bits == (e << 52) + (w >> 12),
            ;
        }
        bits
    }
}

} // verus!
