//! Byte filling: buffers of arbitrary length are filled with the
//! little-endian bytes of successive transition words, so the byte stream
//! for a given state is one fixed sequence of which every fill is a prefix.

use vstd::prelude::*;

use crate::engine::Rng;
use crate::engine::steps;
use crate::engine::word;

verus! {

/// The `i`-th word of the output stream from state `s`.
pub open spec fn word_at(s: u128, i: nat) -> u64 {
    word(steps(s, i))
}

/// The `j`-th byte of the output byte stream from state `s`: byte `j % 8`
/// of the little-endian representation of word `j / 8`.
pub open spec fn stream_byte(s: u128, j: nat) -> u8 {
    ((word_at(s, j / 8) >> ((8 * (j % 8)) as u64)) & 0xff) as u8
}

/// The first `n` bytes of the output byte stream from state `s`.
pub open spec fn fill_bytes(s: u128, n: nat) -> Seq<u8> {
    Seq::new(n, |j: int| stream_byte(s, j as nat))
}

/// The number of words a fill of `n` bytes consumes: one per 8 bytes,
/// rounding the final partial chunk up; none at all for an empty buffer.
pub open spec fn words_for(n: nat) -> nat {
    (n + 7) / 8
}

/// Filling a shorter buffer yields exactly a prefix of the bytes a longer
/// fill from the same state would yield.
pub proof fn lemma_fill_prefix(s: u128, m: nat, n: nat)
    requires
        m <= n,
    ensures
        fill_bytes(s, m) == fill_bytes(s, n).subrange(0, m as int),
{
    assert(fill_bytes(s, m) =~= fill_bytes(s, n).subrange(0, m as int));
}

impl Rng {
    /// Fills the provided buffer with independent uniformly distributed
    /// bytes, keeping its length. A zero-length buffer draws nothing.
    pub fn bytes(&mut self, dst: &mut Vec<u8>)
        ensures
            final(dst)@ == fill_bytes(old(self)@, old(dst)@.len() as nat),
            final(dst)@.len() == old(dst)@.len(),
            final(self)@ == steps(old(self)@, words_for(old(dst)@.len() as nat)),
            final(self)@ != 0,
    {
        proof {
            use_type_invariant(&*self);
        }
        let n = dst.len();
        dst.clear();
        let mut k: usize = 0;
        while dst.len() < n
            invariant
                n <= usize::MAX,
                dst@.len() <= n,
                dst@.len() == if 8 * k <= n { 8 * (k as int) } else { n as int },
                8 * k <= n + 7,
                dst@ == fill_bytes(old(self)@, dst@.len() as nat),
                self@ == steps(old(self)@, k as nat),
                self@ != 0,
            decreases n - dst@.len(),
        {
            let w = self.u64();
            k = k + 1;
            let mut b: usize = 0;
            while b < 8 && dst.len() < n
                invariant
                    1 <= k,
                    8 * k <= n + 7,
                    b <= 8,
                    dst@.len() == 8 * ((k - 1) as int) + b,
                    dst@.len() <= n,
                    w == word_at(old(self)@, (k - 1) as nat),
                    dst@ == fill_bytes(old(self)@, dst@.len() as nat),
                    self@ == steps(old(self)@, k as nat),
                    self@ != 0,
                decreases 8 - b,
            {
                let sh = (8 * b) as u32;
                let byte = #[verifier::truncate] ((w >> sh) as u8);
                proof {
                    let j = dst@.len() as nat;
                    assert(j / 8 == (k - 1) as nat && j % 8 == b as nat);
                    assert(byte == ((w >> ((8 * (b as u64))) as u64) & 0xff) as u8)
                        by (bit_vector)
                        requires
                            byte == ((w >> ((8 * (b as u64)) as u32)) as u8),
                            b < 8,
                    ;
                    assert(byte == stream_byte(old(self)@, j));
                    assert(fill_bytes(old(self)@, j + 1) =~= fill_bytes(old(self)@, j).push(
                        stream_byte(old(self)@, j),
                    ));
                }
                dst.push(byte);
                b = b + 1;
            }
        }
        proof {
            if n > 0 {
                assert(8 * k >= n && 8 * k <= n + 7);
                assert(k == words_for(n as nat));
            } else {
                assert(k == 0 && words_for(0) == 0);
            }
        }
    }

    /// Samples `n` independent uniformly distributed bytes as a fresh
    /// buffer. The bytes are exactly those a fill of the same length would
    /// produce, since both share one filling routine.
    pub fn byte_array(&mut self, n: usize) -> (r: Vec<u8>)
        ensures
            r@ == fill_bytes(old(self)@, n as nat),
            r@.len() == n,
            final(self)@ == steps(old(self)@, words_for(n as nat)),
            final(self)@ != 0,
    {
        let mut buf: Vec<u8> = vec![0u8; n];
        self.bytes(&mut buf);
        buf
    }
}

} // verus!
