//! Construction from operating-system entropy: the one operation with an
//! external failure mode.

use vstd::prelude::*;

use crate::engine::Rng;

verus! {

/// Relies on `getrandom::fill`: on success the buffer holds 16 bytes drawn
/// from the operating system's entropy source. Nothing can be promised of
/// their values, and a failure of the source is reported as `None`.
#[verifier::external_body]
fn os_entropy_16() -> (r: Option<Vec<u8>>)
    ensures
        r matches Some(b) ==> b@.len() == 16,
{
    let mut buf = [0u8; 16];
    match getrandom::fill(&mut buf) {
        Ok(()) => Some(buf.to_vec()),
        Err(_) => None,
    }
}

impl Rng {
    /// Creates a random number generator with a random seed retrieved from
    /// the operating system, or `None` when the entropy source fails. The
    /// low bit of the drawn state is forced to 1, so whatever bytes the
    /// operating system returned, the state invariant holds.
    pub fn from_operating_system() -> (r: Option<Rng>)
        ensures
            r matches Some(g) ==> g@ != 0 && g@ % 2 == 1,
    {
        match os_entropy_16() {
            None => None,
            Some(b) => {
                let s = vstd::bytes::u128_from_le_bytes(b.as_slice());
                let s1 = s | 1;
                proof {
                    assert(s1 != 0 && s1 % 2 == 1) by (bit_vector)
                        requires
                            s1 == s | 1,
                    ;
                }
                Some(Rng::from_state(s1))
            },
        }
    }
}

} // verus!
