//! The xorshift generator that seeds the weights of the neural correction
//! networks deterministically.
use vstd::prelude::*;

verus! {

/// One xorshift64 step (shifts 13, 7, 17).
pub open spec fn xorshift_step(x: u64) -> u64 {
    let a = x ^ (x << 13u64);
    let b = a ^ (a >> 7u64);
    b ^ (b << 17u64)
}

/// The state after `k` steps from `seed`.
pub open spec fn xorshift_state(seed: u64, k: nat) -> u64
    decreases k,
{
    if k == 0 {
        seed
    } else {
        xorshift_step(xorshift_state(seed, (k - 1) as nat))
    }
}

/// The starting state for a seed: the seed itself, with 0 replaced by 1.
pub open spec fn initial_state(seed: u64) -> u64 {
    if seed == 0 {
        1
    } else {
        seed
    }
}

/// A step never turns a nonzero state into zero: each of the three
/// xor-shifts is invertible.
pub proof fn lemma_step_nonzero(x: u64)
    requires
        x != 0,
    ensures
        xorshift_step(x) != 0,
{
    let a = x ^ (x << 13u64);
    let b = a ^ (a >> 7u64);
    assert(x != 0 ==> x ^ (x << 13u64) != 0) by (bit_vector);
    assert(a != 0 ==> a ^ (a >> 7u64) != 0) by (bit_vector);
    assert(b != 0 ==> b ^ (b << 17u64) != 0) by (bit_vector);
}

/// Simple xorshift RNG for deterministic initialization.
pub struct SimpleRng {
    state: u64,
}

impl SimpleRng {
    /// The current state.
    pub closed spec fn spec_state(&self) -> u64 {
        self.state
    }

    /// The generator never holds the zero state, from which xorshift
    /// could not leave.
    pub open spec fn wf(&self) -> bool {
        self.spec_state() != 0
    }

    /// A generator seeded with `seed` (0 counts as 1).
    pub fn new(seed: u64) -> (r: Self)
        ensures
            r.spec_state() == initial_state(seed),
            r.wf(),
    {
        SimpleRng { state: if seed < 1 { 1 } else { seed } }
    }

    /// Advance one step and return the new state.
    pub fn next(&mut self) -> (r: u64)
        requires
            old(self).wf(),
        ensures
            r == xorshift_step(old(self).spec_state()),
            final(self).spec_state() == r,
            final(self).wf(),
            r != 0,
    {
        proof {
            lemma_step_nonzero(self.state);
        }
        self.state = self.state ^ (self.state << 13u64);
        self.state = self.state ^ (self.state >> 7u64);
        self.state = self.state ^ (self.state << 17u64);
        self.state
    }
}

/// The `k`-th value drawn from a generator seeded with `seed` is determined by
/// the seed alone, and is never zero.
pub proof fn lemma_sequence_nonzero(seed: u64, k: nat)
    ensures
        xorshift_state(initial_state(seed), k) != 0,
    decreases k,
{
    if k > 0 {
        lemma_sequence_nonzero(seed, (k - 1) as nat);
        lemma_step_nonzero(xorshift_state(initial_state(seed), (k - 1) as nat));
    }
}

} // verus!
