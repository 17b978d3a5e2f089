//! The keystream: a linear congruential generator that hands out the low byte
//! of each new state. The sequence is infinite and forward-only.

use vstd::arithmetic::div_mod::{lemma_add_mod_noop, lemma_mod_mod, lemma_mod_multiples_vanish};
use vstd::prelude::*;

verus! {

/// Multiplier of the recurrence.
pub const LCG_A: u64 = 1103515245;

/// Increment of the recurrence.
pub const LCG_C: u64 = 12345;

/// Modulus of the recurrence, 2^32.
pub const LCG_M: u64 = 0x1_0000_0000;

/// One step of the recurrence: `(A * state + C) mod 2^32`.
pub open spec fn lcg_step(state: u64) -> u64 {
    ((LCG_A * state + LCG_C) % (LCG_M as int)) as u64
}

/// The state that a generator seeded with `seed` holds after `steps` bytes.
pub open spec fn state_after(seed: u64, steps: nat) -> u64
    decreases steps,
{
    if steps == 0 {
        seed
    } else {
        lcg_step(state_after(seed, (steps - 1) as nat))
    }
}

/// The byte at position `index` of the keystream of `seed`, counted from 0.
pub open spec fn keystream_byte(seed: u64, index: nat) -> u8 {
    (state_after(seed, index + 1) % 256) as u8
}

/// The `len` keystream bytes of `seed` from position `start` on.
pub open spec fn keystream(seed: u64, start: nat, len: nat) -> Seq<u8> {
    Seq::new(len, |i: int| keystream_byte(seed, (start + i) as nat))
}

/// Wrapping 64-bit arithmetic followed by the reduction to 32 bits computes
/// the recurrence exactly, since 2^32 divides 2^64.
proof fn lemma_wrapping_step(state: u64)
    ensures
        LCG_A.wrapping_mul(state).wrapping_add(LCG_C) % LCG_M == lcg_step(state),
{
    let m: int = 0x1_0000_0000;
    let product: int = LCG_A * state;
    let low: int = product % 0x1_0000_0000_0000_0000;
    assert(LCG_A.wrapping_mul(state) == low);
    let sum: u64 = LCG_A.wrapping_mul(state).wrapping_add(LCG_C);
    assert(sum == low + LCG_C || sum == low + LCG_C - m * m);
    assert((m * (-m) + (low + LCG_C)) % m == (low + LCG_C) % m) by {
        lemma_mod_multiples_vanish(-m, low + LCG_C, m);
    }
    assert(m * (-m) + (low + LCG_C) == low + LCG_C - m * m) by (nonlinear_arith);
    assert(sum % 0x1_0000_0000 == (low + LCG_C) % m);
    assert(low % m == product % m) by {
        lemma_mod_mod(product, m, m);
    }
    lemma_add_mod_noop(low, LCG_C as int, m);
    lemma_add_mod_noop(product, LCG_C as int, m);
}

/// A keystream generator: its seed, its current state, and how many bytes it
/// has handed out so far.
pub struct KeystreamGenerator {
    seed: u64,
    state: u64,
    produced: Ghost<nat>,
}

impl KeystreamGenerator {
    /// The seed that the generator was made with.
    pub closed spec fn seed(&self) -> u64 {
        self.seed
    }

    /// The current state of the recurrence.
    pub closed spec fn state(&self) -> u64 {
        self.state
    }

    /// The number of bytes handed out so far: the position of the next byte.
    pub closed spec fn produced(&self) -> nat {
        self.produced@
    }

    /// The state is the one that the seed reaches after `produced` steps.
    #[verifier::type_invariant]
    pub closed spec fn wf(&self) -> bool {
        self.state == state_after(self.seed, self.produced@)
    }

    /// A generator at the start of the keystream of `seed`.
    pub fn new(seed: u64) -> (generator: Self)
        ensures
            generator.wf(),
            generator.seed() == seed,
            generator.state() == seed,
            generator.produced() == 0,
    {
        KeystreamGenerator { seed, state: seed, produced: Ghost(0) }
    }

    /// Advances the recurrence by one step and returns the low byte of the
    /// new state.
    pub fn next(&mut self) -> (byte: u8)
        ensures
            final(self).wf(),
            final(self).seed() == old(self).seed(),
            final(self).produced() == old(self).produced() + 1,
            final(self).state() == lcg_step(old(self).state()),
            byte == keystream_byte(old(self).seed(), old(self).produced()),
            byte == final(self).state() % 256,
    {
        proof {
            use_type_invariant(&*self);
            lemma_wrapping_step(self.state);
        }
        let next_state: u64 = LCG_A.wrapping_mul(self.state).wrapping_add(LCG_C) % LCG_M;
        assert(next_state & 0xFF == next_state % 256) by (bit_vector);
        *self = KeystreamGenerator {
            seed: self.seed,
            state: next_state,
            produced: Ghost((self.produced@ + 1) as nat),
        };
        (next_state & 0xFF) as u8
    }

    /// Hands out the next `count` bytes of the keystream, in order.
    pub fn take(&mut self, count: usize) -> (bytes: Vec<u8>)
        ensures
            final(self).wf(),
            final(self).seed() == old(self).seed(),
            final(self).produced() == old(self).produced() + count,
            bytes@ == keystream(old(self).seed(), old(self).produced(), count as nat),
    {
        proof {
            use_type_invariant(&*self);
        }
        let ghost seed = self.seed();
        let ghost start = self.produced();
        let mut bytes: Vec<u8> = Vec::with_capacity(count);
        let mut i: usize = 0;
        while i < count
            invariant
                i <= count,
                self.wf(),
                self.seed() == seed,
                self.produced() == start + i,
                bytes@ == keystream(seed, start, i as nat),
            decreases count - i,
        {
            let byte = self.next();
            bytes.push(byte);
            i += 1;
            assert(bytes@ =~= keystream(seed, start, i as nat));
        }
        bytes
    }

    /// A second handle on the same point of the same keystream. It stays
    /// inside the crate: a cursor moves forward by replacing its generator
    /// together with its counter.
    pub(crate) fn fork(&self) -> (twin: Self)
        ensures
            twin.wf(),
            twin.seed() == self.seed(),
            twin.state() == self.state(),
            twin.produced() == self.produced(),
    {
        proof {
            use_type_invariant(self);
        }
        KeystreamGenerator { seed: self.seed, state: self.state, produced: Ghost(self.produced@) }
    }

    /// The seed that the generator was made with.
    pub fn seed_value(&self) -> (seed: u64)
        ensures
            seed == self.seed(),
    {
        self.seed
    }

    /// The current state of the recurrence.
    pub fn state_value(&self) -> (state: u64)
        ensures
            state == self.state(),
    {
        self.state
    }
}

/// Number of keystream bytes shown to the operator when a channel opens.
pub const PREVIEW_LEN: usize = 10;

/// The first `PREVIEW_LEN` bytes of the keystream of `seed`, from a generator
/// of their own: no session's cursor moves.
pub fn keystream_preview(seed: u64) -> (bytes: Vec<u8>)
    ensures
        bytes@ == keystream(seed, 0, PREVIEW_LEN as nat),
{
    let mut generator = lcg_keystream(seed);
    generator.take(PREVIEW_LEN)
}

/// Determinism: two generators made with the same seed that have handed out
/// the same number of bytes are in the same state, and hand out the same
/// bytes from there on.
pub proof fn lemma_same_seed_same_stream(
    first: KeystreamGenerator,
    second: KeystreamGenerator,
    count: nat,
)
    requires
        first.wf(),
        second.wf(),
        first.seed() == second.seed(),
        first.produced() == second.produced(),
    ensures
        first.state() == second.state(),
        keystream(first.seed(), first.produced(), count) == keystream(
            second.seed(),
            second.produced(),
            count,
        ),
{
}

/// Steps add up: `more` steps from the state after `steps` steps lead to the
/// state after `steps + more` steps.
pub proof fn lemma_state_after_adds(seed: u64, steps: nat, more: nat)
    ensures
        state_after(state_after(seed, steps), more) == state_after(seed, steps + more),
    decreases more,
{
    if more > 0 {
        lemma_state_after_adds(seed, steps, (more - 1) as nat);
    }
}

/// The stream depends on the state alone: from position `start` on, the
/// keystream of `seed` is the keystream of a generator seeded with the state
/// reached there.
pub proof fn lemma_keystream_resumes(seed: u64, start: nat, len: nat)
    ensures
        keystream(seed, start, len) == keystream(state_after(seed, start), 0, len),
{
    let resumed = keystream(state_after(seed, start), 0, len);
    assert forall|i: int| 0 <= i < len implies keystream(seed, start, len)[i]
        == #[trigger] resumed[i] by {
        lemma_state_after_adds(seed, start, (i + 1) as nat);
    }
    assert(keystream(seed, start, len) =~= resumed);
}

/// The keystream is cut without loss: the bytes from `start` on, followed by
/// the bytes from where those end, are the bytes of the joined range. No
/// position is handed out twice and none is skipped.
pub proof fn lemma_keystream_ranges_adjoin(seed: u64, start: nat, first: nat, second: nat)
    ensures
        keystream(seed, start, first) + keystream(seed, start + first, second) == keystream(
            seed,
            start,
            first + second,
        ),
{
    assert(keystream(seed, start, first) + keystream(seed, start + first, second) =~= keystream(
        seed,
        start,
        first + second,
    ));
}

/// The keystream of `seed`, as a generator that stands before its first byte.
pub fn lcg_keystream(seed: u64) -> (generator: KeystreamGenerator)
    ensures
        generator.wf(),
        generator.seed() == seed,
        generator.state() == seed,
        generator.produced() == 0,
{
    KeystreamGenerator::new(seed)
}

} // verus!
