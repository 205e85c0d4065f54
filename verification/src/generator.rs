//! The generator itself: one 32-bit register, stepped by the minimal
//! standard linear congruence, and read out in one of two ways.

use vstd::prelude::*;

verus! {

/// The largest value a draw can yield (15 bits).
pub const BASH_RAND_MAX: u16 = 32767;

/// Which generation of the algorithm reads the register out.
#[derive(Clone, Copy, Debug, PartialEq, Eq, Structural)]
pub enum Variant {
    /// Shells up to 5.0: the low 15 bits of the register.
    Old,
    /// Shells from 5.1 on: the two halves of the register folded together.
    New,
}

/// The register that follows `state`: `16807 * x mod (2^31 - 1)` computed by
/// Schrage's split, with the register 0 replaced by 123459876 beforehand.
pub open spec fn next_state(state: u32) -> u32 {
    let r: int = if state == 0 { 123459876 } else { state as int };
    let t: int = 16807 * (r % 127773) - 2836 * (r / 127773);
    if t < 0 { (t + 0x7fffffff) as u32 } else { t as u32 }
}

/// The value that a register shows under a variant.
pub open spec fn output_of(state: u32, variant: Variant) -> u16 {
    match variant {
        Variant::Old => (state & 0x7fff) as u16,
        Variant::New => (((state >> 16) ^ (state & 0xffff)) & 0x7fff) as u16,
    }
}

/// The register after `k` steps from `seed`.
pub open spec fn state_after(seed: u32, k: nat) -> u32
    decreases k,
{
    if k == 0 {
        seed
    } else {
        next_state(state_after(seed, (k - 1) as nat))
    }
}

/// The draw with index `i` (from 0) of a generator seeded with `seed`.
pub open spec fn draw(seed: u32, variant: Variant, i: nat) -> u16 {
    output_of(state_after(seed, i + 1), variant)
}

/// The first `n` draws of a generator seeded with `seed`, in draw order.
pub open spec fn outputs(seed: u32, variant: Variant, n: nat) -> Seq<u16> {
    Seq::new(n, |i: int| draw(seed, variant, i as nat))
}

/// The `n` registers that follow `seed`, in order.
pub open spec fn states(seed: u32, n: nat) -> Seq<u32> {
    Seq::new(n, |i: int| state_after(seed, (i + 1) as nat))
}

/// Every output fits in 15 bits.
pub proof fn lemma_output_bound(state: u32, variant: Variant)
    ensures
        output_of(state, variant) <= BASH_RAND_MAX,
{
    assert((state & 0x7fff) as u16 <= 32767) by (bit_vector);
    assert((((state >> 16) ^ (state & 0xffff)) & 0x7fff) as u16 <= 32767) by (bit_vector);
}

/// Steps compose: `j` steps after `i` steps are `i + j` steps.
pub proof fn lemma_state_after_add(seed: u32, i: nat, j: nat)
    ensures
        state_after(state_after(seed, i), j) == state_after(seed, i + j),
    decreases j,
{
    if j > 0 {
        lemma_state_after_add(seed, i, (j - 1) as nat);
        assert(((i + j) - 1) as nat == i + ((j - 1) as nat));
    }
}

/// The draws of a generator that starts at the register reached after `k`
/// steps are the draws that follow the first `k` of the whole sequence.
pub proof fn lemma_outputs_after_skip(seed: u32, variant: Variant, k: nat, n: nat)
    ensures
        outputs(state_after(seed, k), variant, n) == outputs(seed, variant, k + n).subrange(
            k as int,
            (k + n) as int,
        ),
{
    let later = outputs(state_after(seed, k), variant, n);
    let whole = outputs(seed, variant, k + n);
    assert forall|i: int| 0 <= i < n implies #[trigger] later[i] == whole[k + i] by {
        lemma_state_after_add(seed, k, (i + 1) as nat);
    }
    assert(outputs(state_after(seed, k), variant, n) =~= outputs(seed, variant, k + n).subrange(
        k as int,
        (k + n) as int,
    ));
}

/// Two generators built from the same seed and variant yield the same
/// draws, however many are taken.
pub proof fn lemma_deterministic(a: Generator, b: Generator, k: nat)
    requires
        a.state == b.state,
        a.variant == b.variant,
    ensures
        outputs(a.state, a.variant, k) == outputs(b.state, b.variant, k),
        state_after(a.state, k) == state_after(b.state, k),
{
}

/// One generator: its register and the variant it was built with.
#[derive(Clone, Copy, Debug)]
pub struct Generator {
    pub state: u32,
    pub variant: Variant,
}

impl Generator {
    /// A generator whose register holds `seed`.
    pub fn new(seed: u32, variant: Variant) -> (g: Generator)
        ensures
            g.state == seed,
            g.variant == variant,
    {
        Generator { state: seed, variant }
    }

    /// Steps the register once and returns it.
    pub fn next_seed(&mut self) -> (s: u32)
        ensures
            s == next_state(old(self).state),
            final(self).state == s,
            final(self).variant == old(self).variant,
    {
        let r: u32 = if self.state == 0 { 123459876 } else { self.state };
        let h: u32 = r / 127773;
        let l: u32 = r % 127773;
        let a: u32 = 16807 * l;
        let b: u32 = 2836 * h;
        let t: u32 = if a < b { a + 0x7fffffff - b } else { a - b };
        self.state = t;
        t
    }

    /// Steps the register once and returns the value it then shows.
    pub fn advance(&mut self) -> (out: u16)
        ensures
            final(self).state == next_state(old(self).state),
            final(self).variant == old(self).variant,
            out == output_of(final(self).state, old(self).variant),
            out == draw(old(self).state, old(self).variant, 0),
            out <= BASH_RAND_MAX,
    {
        let s: u32 = self.next_seed();
        proof {
            lemma_output_bound(s, self.variant);
            assert(state_after(old(self).state, 1) == next_state(state_after(old(self).state, 0)));
        }
        match self.variant {
            Variant::Old => (s & 0x7fff) as u16,
            Variant::New => (((s >> 16) ^ (s & 0xffff)) & 0x7fff) as u16,
        }
    }

    /// Steps the register `n` times, discarding what it shows.
    pub fn skip(&mut self, n: usize)
        ensures
            final(self).state == state_after(old(self).state, n as nat),
            final(self).variant == old(self).variant,
    {
        let mut i: usize = 0;
        while i < n
            invariant
                i <= n,
                self.state == state_after(old(self).state, i as nat),
                self.variant == old(self).variant,
            decreases n - i,
        {
            self.next_seed();
            i = i + 1;
        }
    }

    /// Draws `n` values and returns them in draw order.
    pub fn take(&mut self, n: usize) -> (v: Vec<u16>)
        ensures
            v@ == outputs(old(self).state, old(self).variant, n as nat),
            final(self).state == state_after(old(self).state, n as nat),
            final(self).variant == old(self).variant,
    {
        let mut v: Vec<u16> = Vec::new();
        let mut i: usize = 0;
        while i < n
            invariant
                i <= n,
                self.state == state_after(old(self).state, i as nat),
                self.variant == old(self).variant,
                v@ =~= outputs(old(self).state, old(self).variant, i as nat),
            decreases n - i,
        {
            let out: u16 = self.advance();
            v.push(out);
            i = i + 1;
        }
        v
    }

    /// Steps the register `n` times and returns each register reached.
    pub fn next_seed_n(&mut self, n: usize) -> (v: Vec<u32>)
        ensures
            v@ == states(old(self).state, n as nat),
            final(self).state == state_after(old(self).state, n as nat),
            final(self).variant == old(self).variant,
    {
        let mut v: Vec<u32> = Vec::new();
        let mut i: usize = 0;
        while i < n
            invariant
                i <= n,
                self.state == state_after(old(self).state, i as nat),
                self.variant == old(self).variant,
                v@ =~= states(old(self).state, i as nat),
            decreases n - i,
        {
            let s: u32 = self.next_seed();
            v.push(s);
            i = i + 1;
        }
        v
    }
}

} // verus!
