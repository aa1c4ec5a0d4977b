//! The engine's random source: system randomness for ordinary runs, or a
//! recorded sequence of draws replayed deterministically, so that a run
//! can be reproduced exactly.

use rand::Rng;
use vstd::prelude::*;

verus! {

/// What one replayed draw yields: the recorded value at `pos`, reduced
/// modulo the requested bound `n`; `0` once the recording is exhausted.
pub open spec fn pick_val(vals: Seq<usize>, pos: int, n: int) -> int {
    if 0 <= pos < vals.len() && n >= 1 {
        (vals[pos] as int) % n
    } else {
        0
    }
}

/// The replay position after one draw (saturating at `usize::MAX`).
pub open spec fn pick_next(pos: int) -> int {
    if pos == usize::MAX {
        pos
    } else {
        pos + 1
    }
}

/// Relies on `rand::Rng::gen_range` over the range `0..n`: it returns a
/// uniformly distributed integer of that range, and panics only when the
/// range is empty, which `1 <= n` rules out. Nothing beyond membership in
/// the range is assumed of the result.
#[verifier::external_body]
fn random_below(n: usize) -> (r: usize)
    requires
        1 <= n,
    ensures
        r < n,
{
    rand::thread_rng().gen_range(0..n)
}

/// A source of tie-breaking draws: either the process's random generator,
/// or a recorded sequence replayed deterministically.
pub struct Sampler {
    /// True when draws come from the recorded sequence.
    pub replay: bool,
    /// The recorded draws (read only in replay mode).
    pub vals: Vec<usize>,
    /// How many draws have been taken from the recording.
    pub pos: usize,
}

impl Sampler {
    /// A sampler drawing from the process's random generator.
    pub fn system() -> (s: Sampler)
        ensures
            !s.replay,
    {
        Sampler { replay: false, vals: Vec::new(), pos: 0 }
    }

    /// A sampler that replays `vals` from the start.
    pub fn replay(vals: Vec<usize>) -> (s: Sampler)
        ensures
            s.replay,
            s.vals@ == vals@,
            s.pos == 0,
    {
        Sampler { replay: true, vals, pos: 0 }
    }

    /// Draw a value below `n`. In replay mode the result and the new
    /// position are exact functions of the recording.
    pub fn pick(&mut self, n: usize) -> (r: usize)
        requires
            1 <= n,
        ensures
            r < n,
            final(self).replay == old(self).replay,
            final(self).vals@ == old(self).vals@,
            old(self).replay ==> r == pick_val(old(self).vals@, old(self).pos as int, n as int),
            old(self).replay ==> final(self).pos as int == pick_next(old(self).pos as int),
            !old(self).replay ==> final(self).pos == old(self).pos,
    {
        if self.replay {
            let r: usize = if self.pos < self.vals.len() {
                self.vals[self.pos] % n
            } else {
                0
            };
            if self.pos < usize::MAX {
                self.pos = self.pos + 1;
            }
            r
        } else {
            random_below(n)
        }
    }
}

} // verus!
