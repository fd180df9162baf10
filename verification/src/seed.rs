//! Seed hashing: an avalanche hash that turns weak seed material into a
//! well-mixed nonzero initial state.

use vstd::prelude::*;
use vstd::arithmetic::div_mod::{lemma_mul_mod_noop_left, lemma_mul_mod_noop_right};
use vstd::arithmetic::mul::lemma_mul_is_associative;

verus! {

/// The hash multiplier: the Euler-Mascheroni constant scaled to 128 bits and
/// rounded to the nearest odd value; a well-mixed odd constant unrelated to
/// the transition's own shift parameters.
pub const MULTIPLIER: u128 = 0x93c4_67e3_7db0_c7a4_d1be_3f81_0152_cb57;

/// The inverse of `MULTIPLIER` modulo 2^128: a witness that multiplication
/// by the odd multiplier permutes the 128-bit value space.
const MULTIPLIER_INVERSE: u128 = 0x75b3_c3bb_dd5d_c77c_4c43_0a99_c6e3_5067;

/// `x` multiplied by `MULTIPLIER`, wrapping modulo 2^128.
pub open spec fn mul_m(x: u128) -> u128 {
    vstd::wrapping::u128_specs::wrapping_mul(x, MULTIPLIER)
}

/// `x` with the order of its 16 bytes reversed.
pub open spec fn byte_rev(x: u128) -> u128 {
    ((x & 0xff) << 120) | (((x >> 8) & 0xff) << 112) | (((x >> 16) & 0xff) << 104)
        | (((x >> 24) & 0xff) << 96) | (((x >> 32) & 0xff) << 88) | (((x >> 40) & 0xff) << 80)
        | (((x >> 48) & 0xff) << 72) | (((x >> 56) & 0xff) << 64) | (((x >> 64) & 0xff) << 56)
        | (((x >> 72) & 0xff) << 48) | (((x >> 80) & 0xff) << 40) | (((x >> 88) & 0xff) << 32)
        | (((x >> 96) & 0xff) << 24) | (((x >> 104) & 0xff) << 16) | (((x >> 112) & 0xff) << 8)
        | (x >> 120)
}

/// The avalanche hash: multiply, reverse bytes, multiply, reverse bytes,
/// multiply. Deterministic, and never zero on a nonzero input.
pub open spec fn hash_spec(x: u128) -> u128 {
    mul_m(byte_rev(mul_m(byte_rev(mul_m(x)))))
}

/// Multiplication by the odd `MULTIPLIER` maps no nonzero value to zero: the
/// product with the inverse recovers the argument modulo 2^128.
proof fn lemma_mul_m_nonzero(x: u128)
    requires
        x != 0,
    ensures
        mul_m(x) != 0,
{
    let p = 0x1_0000_0000_0000_0000_0000_0000_0000_0000int;
    let m = MULTIPLIER as int;
    let mi = MULTIPLIER_INVERSE as int;
    assert((m * mi) % p == 1);
    if mul_m(x) == 0 {
        assert((x * m) % p == 0);
        lemma_mul_mod_noop_left(x * m, mi, p);
        assert((x * m * mi) % p == 0);
        lemma_mul_is_associative(x as int, m, mi);
        assert(x * m * mi == x * (m * mi));
        lemma_mul_mod_noop_right(x as int, m * mi, p);
        assert((x * ((m * mi) % p)) % p == (x * (m * mi)) % p);
        assert(x * 1int == x);
        assert((x as int) % p == 0);
    }
}

/// Reversing the bytes of a nonzero value yields a nonzero value.
proof fn lemma_byte_rev_nonzero(x: u128)
    requires
        x != 0,
    ensures
        byte_rev(x) != 0,
{
    assert(byte_rev(x) != 0) by (bit_vector)
        requires
            x != 0,
    ;
}

/// Reverses the order of the 16 bytes of `x` by a mask-and-shift ladder.
fn byte_swap(x: u128) -> (r: u128)
    ensures
        r == byte_rev(x),
{
    let a = ((x & 0x00ff_00ff_00ff_00ff_00ff_00ff_00ff_00ff) << 8)
        | ((x >> 8) & 0x00ff_00ff_00ff_00ff_00ff_00ff_00ff_00ff);
    let b = ((a & 0x0000_ffff_0000_ffff_0000_ffff_0000_ffff) << 16)
        | ((a >> 16) & 0x0000_ffff_0000_ffff_0000_ffff_0000_ffff);
    let c = ((b & 0x0000_0000_ffff_ffff_0000_0000_ffff_ffff) << 32)
        | ((b >> 32) & 0x0000_0000_ffff_ffff_0000_0000_ffff_ffff);
    let r = (c << 64) | (c >> 64);
    proof {
        assert(r == byte_rev(x)) by (bit_vector)
            requires
                a == (((x & 0x00ff_00ff_00ff_00ff_00ff_00ff_00ff_00ffu128) << 8) | ((x
                    >> 8) & 0x00ff_00ff_00ff_00ff_00ff_00ff_00ff_00ffu128)),
                b == (((a & 0x0000_ffff_0000_ffff_0000_ffff_0000_ffffu128) << 16) | ((a
                    >> 16) & 0x0000_ffff_0000_ffff_0000_ffff_0000_ffffu128)),
                c == (((b & 0x0000_0000_ffff_ffff_0000_0000_ffff_ffffu128) << 32) | ((b
                    >> 32) & 0x0000_0000_ffff_ffff_0000_0000_ffff_ffffu128)),
                r == ((c << 64) | (c >> 64)),
        ;
    }
    r
}

/// Hashes a packed seed value into an initial state. A nonzero argument
/// yields a nonzero result.
pub(crate) fn hash(x: u128) -> (r: u128)
    ensures
        r == hash_spec(x),
        x != 0 ==> r != 0,
{
    let a = x.wrapping_mul(MULTIPLIER);
    let b = byte_swap(a);
    let c = b.wrapping_mul(MULTIPLIER);
    let d = byte_swap(c);
    let r = d.wrapping_mul(MULTIPLIER);
    proof {
        if x != 0 {
            lemma_mul_m_nonzero(x);
            lemma_byte_rev_nonzero(a);
            lemma_mul_m_nonzero(b);
            lemma_byte_rev_nonzero(c);
            lemma_mul_m_nonzero(d);
        }
    }
    r
}

} // verus!
