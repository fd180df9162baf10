//! The generator engine: the 128-bit state, its invariant, and the
//! transition that yields one 64-bit word per call.

use vstd::prelude::*;

use crate::seed::hash;
use crate::seed::hash_spec;

verus! {

/// The first `k` bytes of `s` packed little-endian into a 128-bit value:
/// byte `i` lands at bits `8*i .. 8*i + 8`.
pub open spec fn pack_le(s: Seq<u8>, k: nat) -> u128
    decreases k,
{
    if k == 0 {
        0
    } else {
        pack_le(s, (k - 1) as nat) | ((s[k - 1] as u128) << (8 * (k - 1)))
    }
}

/// Low 64 bits of the state.
pub open spec fn state_lo(s: u128) -> u64 {
    s as u64
}

/// High 64 bits of the state.
pub open spec fn state_hi(s: u128) -> u64 {
    (s >> 64) as u64
}

/// `y` rotated right by 7 bits.
pub open spec fn rot7(y: u64) -> u64 {
    (y >> 7) | (y << 57)
}

/// The full 128-bit square of a 64-bit value.
pub open spec fn square(x: u64) -> u128 {
    ((x as u128) * (x as u128)) as u128
}

/// The 64-bit word produced by one transition from state `s`: the high half
/// of the state plus (wrapping) the folded halves of the squared low half.
pub open spec fn word(s: u128) -> u64 {
    (state_hi(s) + ((square(state_lo(s)) as u64) ^ ((square(state_lo(s)) >> 64) as u64))) as u64
}

/// The state reached by one transition from state `s`.
pub open spec fn step(s: u128) -> u128 {
    ((state_hi(s) ^ (state_hi(s) >> 19)) as u128)
        ^ (((state_lo(s) ^ rot7(state_hi(s))) as u128) << 64)
}

/// The state reached by `k` transitions from state `s`.
pub open spec fn steps(s: u128, k: nat) -> u128
    decreases k,
{
    if k == 0 {
        s
    } else {
        step(steps(s, (k - 1) as nat))
    }
}

/// The transition never maps a nonzero state to zero: both shift-xor mixes
/// are invertible, so a zero successor would force a zero predecessor.
pub proof fn lemma_step_nonzero(s: u128)
    requires
        s != 0,
    ensures
        step(s) != 0,
{
    assert(step(s) != 0) by (bit_vector)
        requires
            s != 0,
    ;
}

/// The state is nonzero after every number of transitions from a nonzero
/// start: the invariant of the generator holds along the whole stream.
pub proof fn lemma_steps_nonzero(s: u128, k: nat)
    requires
        s != 0,
    ensures
        steps(s, k) != 0,
    decreases k,
{
    if k > 0 {
        lemma_steps_nonzero(s, (k - 1) as nat);
        lemma_step_nonzero(steps(s, (k - 1) as nat));
    }
}

/// Two 64-bit words combined into a state candidate (`x` low, `y` high),
/// with the low bit forced to 1 so that the result is never zero.
pub open spec fn combine_words(x: u64, y: u64) -> u128 {
    ((x as u128) ^ ((y as u128) << 64)) | 1
}

/// A high performance non-cryptographic random number generator.
#[derive(Clone, Copy)]
pub struct Rng {
    state: u128,
}

impl View for Rng {
    type V = u128;

    closed spec fn view(&self) -> u128 {
        self.state
    }
}

impl Rng {
    /// The state is never zero: zero is the one fixed point of the
    /// transition, so it is excluded at every construction site.
    #[verifier::type_invariant]
    pub open spec fn wf(self) -> bool {
        self@ != 0
    }

    /// Creates a random number generator with an initial state derived by
    /// hashing the given byte array. All 15 seed bytes influence the packed
    /// value, and a marker bit set in the top byte makes it nonzero even for
    /// an all-zero seed, so the hash never collapses to the zero state.
    pub fn new(seed: [u8; 15]) -> (r: Self)
        ensures
            r@ == hash_spec(pack_le(seed@, 15) | (1u128 << 120)),
            r@ != 0,
    {
        let mut acc: u128 = 0;
        let mut i: usize = 0;
        while i < 15
            invariant
                i <= 15,
                acc == pack_le(seed@, i as nat),
            decreases 15 - i,
        {
            acc = acc | ((seed[i] as u128) << (8 * (i as u32)));
            i = i + 1;
        }
        let s = acc | (1u128 << 120);
        proof {
            assert(s != 0) by (bit_vector)
                requires
                    s == acc | (1u128 << 120),
            ;
        }
        Self { state: hash(s) }
    }

    /// Creates a random number generator with an initial state derived by
    /// hashing the given `u64` seed. The seed is zero-extended with a marker
    /// bit set in the upper half, so the hash input is never zero.
    pub fn from_u64(seed: u64) -> (r: Self)
        ensures
            r@ == hash_spec((seed as u128) | (1u128 << 64)),
            r@ != 0,
    {
        let s = (seed as u128) | (1u128 << 64);
        proof {
            assert(s != 0) by (bit_vector)
                requires
                    s == (seed as u128) | (1u128 << 64),
            ;
        }
        Self { state: hash(s) }
    }

    /// Creates a random number generator with a particular initial state.
    ///
    /// If you want to deterministically initialize a generator from a small
    /// integer or other weak seed, you should *not* use this function: use
    /// one of the seed-hashing constructors, which avalanche their argument.
    pub fn from_state(state: u128) -> (r: Self)
        requires
            state != 0,
        ensures
            r@ == state,
    {
        Self { state }
    }

    /// Retrieves the current state of the random number generator.
    pub fn state(&self) -> (r: u128)
        ensures
            r == self@,
            r != 0,
    {
        proof {
            use_type_invariant(self);
        }
        self.state
    }

    /// Samples a `u64` from the uniform distribution, advancing the state by
    /// one transition.
    pub fn u64(&mut self) -> (z: u64)
        ensures
            z == word(old(self)@),
            final(self)@ == step(old(self)@),
            final(self)@ != 0,
    {
        proof {
            use_type_invariant(&*self);
        }
        let s = self.state;
        let x = #[verifier::truncate] (s as u64);
        let y = (s >> 64) as u64;
        let u = y ^ (y >> 19);
        let v = x ^ ((y >> 7) | (y << 57));
        proof {
            assert((x as u128) * (x as u128) <= 0xffff_ffff_ffff_ffff_u128 * 0xffff_ffff_ffff_ffff_u128)
                by (nonlinear_arith)
                requires
                    x <= 0xffff_ffff_ffff_ffff_u64,
            ;
        }
        let w = (x as u128) * (x as u128);
        let t = (#[verifier::truncate] (w as u64)) ^ ((w >> 64) as u64);
        let z = #[verifier::truncate] (((y as u128) + (t as u128)) as u64);
        let s2 = (u as u128) ^ ((v as u128) << 64);
        proof {
            lemma_step_nonzero(s);
            assert(x == state_lo(s) && y == state_hi(s));
            assert(s2 == step(s));
            assert(w == square(x));
            assert(z == ((y as u128 + t as u128) as u64));
            assert(z == word(s)) by (bit_vector)
                requires
                    z == ((y as u128 + t as u128) as u64),
                    t == ((w as u64) ^ ((w >> 64) as u64)),
                    w == square(state_lo(s)),
                    y == state_hi(s),
            ;
        }
        self.state = s2;
        z
    }

    /// Creates a random number generator whose state packs the 16 seed
    /// bytes little-endian, with the low bit forced to 1 so that the state
    /// is never zero. The bytes are used as they are, without hashing:
    /// callers seeding from weak material should prefer the hashing
    /// constructors.
    pub fn from_seed_bytes(seed: [u8; 16]) -> (r: Self)
        ensures
            r@ == pack_le(seed@, 16) | 1,
            r@ != 0,
            r@ % 2 == 1,
    {
        let mut acc: u128 = 0;
        let mut i: usize = 0;
        while i < 16
            invariant
                i <= 16,
                acc == pack_le(seed@, i as nat),
            decreases 16 - i,
        {
            acc = acc | ((seed[i] as u128) << (8 * (i as u32)));
            i = i + 1;
        }
        let s = acc | 1;
        proof {
            assert(s != 0 && s % 2 == 1) by (bit_vector)
                requires
                    s == acc | 1,
            ;
        }
        Self { state: s }
    }

    /// Creates a random number generator whose state combines the two given
    /// words, with the low bit forced to 1. Useful for deriving an instance
    /// from another source of randomness; the result is statistically
    /// independent of later draws only as far as the words themselves are.
    pub fn from_two_words(x: u64, y: u64) -> (r: Self)
        ensures
            r@ == combine_words(x, y),
            r@ != 0,
            r@ % 2 == 1,
    {
        let s = ((x as u128) ^ ((y as u128) << 64)) | 1;
        proof {
            assert(s != 0 && s % 2 == 1) by (bit_vector)
                requires
                    s == ((x as u128) ^ ((y as u128) << 64)) | 1,
            ;
        }
        Self { state: s }
    }

    /// Splits off a new random number generator that may be used along with
    /// the original. The child's state combines two words drawn from the
    /// parent, so the parent advances by exactly two transitions.
    pub fn split(&mut self) -> (r: Self)
        ensures
            final(self)@ == steps(old(self)@, 2),
            final(self)@ != 0,
            r@ == combine_words(word(old(self)@), word(step(old(self)@))),
            r@ != 0,
            r@ % 2 == 1,
    {
        let x = self.u64();
        let y = self.u64();
        proof {
            assert(steps(old(self)@, 2) == step(step(old(self)@))) by {
                reveal_with_fuel(steps, 3);
            }
        }
        Self::from_two_words(x, y)
    }
}

} // verus!
