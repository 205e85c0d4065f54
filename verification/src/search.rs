//! Searches over a range of seeds for those that a target accepts.

use vstd::prelude::*;
use vstd::arithmetic::div_mod::lemma_div_is_ordered_by_denominator;
use vstd::slice::slice_to_vec;
use crate::alphabet::{chars_of, encode, encode_all, symbol};
use crate::generator::{draw, outputs, state_after, Generator, Variant};

verus! {

/// The bound that no seed reaches: seeds are 32-bit values.
pub const SEED_SPACE: u64 = 0x1_0000_0000;

/// A generator seeded with `seed` yields exactly `window` as its first draws.
pub open spec fn reproduces(seed: u32, variant: Variant, window: Seq<u16>) -> bool {
    outputs(seed, variant, window.len()) == window
}

/// Both variants, seeded with `seed`, yield `value` as their first draw.
pub open spec fn collides(seed: u32, value: u16) -> bool {
    draw(seed, Variant::Old, 0) == value && draw(seed, Variant::New, 0) == value
}

/// The text is not empty, and the old variant seeded with `seed` yields
/// draws whose symbols are exactly the text.
pub open spec fn spells(seed: u32, text: Seq<char>) -> bool {
    text.len() > 0 && encode_all(outputs(seed, Variant::Old, text.len())) == text
}

/// What a search looks for.
pub enum Target {
    /// Seeds whose first draws under `variant` are `values`.
    Window { values: Vec<u16>, variant: Variant },
    /// Seeds whose first draw is `value` under both variants.
    Collision { value: u16 },
    /// Seeds whose first draws under the old variant spell `text`.
    Password { text: Vec<char> },
}

/// Whether a generator seeded with `seed` yields `window` as its first draws.
pub fn window_matches(seed: u32, variant: Variant, window: &[u16]) -> (b: bool)
    ensures
        b == reproduces(seed, variant, window@),
{
    let mut g: Generator = Generator::new(seed, variant);
    let mut i: usize = 0;
    while i < window.len()
        invariant
            i <= window.len(),
            g.state == state_after(seed, i as nat),
            g.variant == variant,
            forall|j: int| 0 <= j < i ==> draw(seed, variant, j as nat) == window@[j],
        decreases window.len() - i,
    {
        let out: u16 = g.advance();
        if out != window[i] {
            proof {
                assert(outputs(seed, variant, window@.len())[i as int] != window@[i as int]);
            }
            return false;
        }
        i = i + 1;
    }
    proof {
        assert(outputs(seed, variant, window@.len()) =~= window@);
    }
    true
}

/// Whether both variants, seeded with `seed`, yield `value` first.
pub fn seed_collides(seed: u32, value: u16) -> (b: bool)
    ensures
        b == collides(seed, value),
{
    let mut old_gen: Generator = Generator::new(seed, Variant::Old);
    let mut new_gen: Generator = Generator::new(seed, Variant::New);
    let a: u16 = old_gen.advance();
    let b: u16 = new_gen.advance();
    a == value && b == value
}

/// Whether the old variant, seeded with `seed`, spells `text`. The trial
/// ends at the first character that differs.
pub fn seed_spells(seed: u32, text: &[char]) -> (b: bool)
    ensures
        b == spells(seed, text@),
{
    if text.len() == 0 {
        return false;
    }
    let mut g: Generator = Generator::new(seed, Variant::Old);
    let mut i: usize = 0;
    while i < text.len()
        invariant
            i <= text.len(),
            g.state == state_after(seed, i as nat),
            g.variant == Variant::Old,
            forall|j: int| 0 <= j < i ==> symbol(draw(seed, Variant::Old, j as nat)) == text@[j],
        decreases text.len() - i,
    {
        let out: u16 = g.advance();
        let c: char = encode(out);
        if c != text[i] {
            proof {
                assert(encode_all(outputs(seed, Variant::Old, text@.len()))[i as int]
                    != text@[i as int]);
            }
            return false;
        }
        i = i + 1;
    }
    proof {
        assert(encode_all(outputs(seed, Variant::Old, text@.len())) =~= text@);
    }
    true
}

/// What a target asks for, as mathematical values.
pub enum Goal {
    Window(Seq<u16>, Variant),
    Collision(u16),
    Password(Seq<char>),
}

impl Goal {
    /// Whether `seed` is one of the seeds that the goal asks for.
    pub open spec fn accepts(self, seed: u32) -> bool {
        match self {
            Goal::Window(window, variant) => reproduces(seed, variant, window),
            Goal::Collision(value) => collides(seed, value),
            Goal::Password(text) => spells(seed, text),
        }
    }
}

impl View for Target {
    type V = Goal;

    open spec fn view(&self) -> Goal {
        match self {
            Target::Window { values, variant } => Goal::Window(values@, *variant),
            Target::Collision { value } => Goal::Collision(*value),
            Target::Password { text } => Goal::Password(text@),
        }
    }
}

impl Target {
    /// The target that looks for the seeds behind a window of draws.
    pub fn window(values: &[u16], variant: Variant) -> (t: Target)
        ensures
            t@ == Goal::Window(values@, variant),
    {
        Target::Window { values: slice_to_vec(values), variant }
    }

    /// The target that looks for the seeds behind a password.
    pub fn password(text: &str) -> (t: Target)
        ensures
            t@ == Goal::Password(text@),
    {
        Target::Password { text: chars_of(text) }
    }

    /// Runs the generator from `seed` and says whether the target accepts it.
    pub fn test(&self, seed: u32) -> (b: bool)
        ensures
            b == self@.accepts(seed),
    {
        match self {
            Target::Window { values, variant } => window_matches(seed, *variant, values.as_slice()),
            Target::Collision { value } => seed_collides(seed, *value),
            Target::Password { text } => seed_spells(seed, text.as_slice()),
        }
    }
}

/// The seeds in `[lo, hi)` that the goal accepts, in ascending order.
pub open spec fn accepted_seeds(goal: Goal, lo: int, hi: int) -> Seq<u32>
    decreases hi - lo,
{
    if lo >= hi {
        Seq::empty()
    } else if goal.accepts((hi - 1) as u32) {
        accepted_seeds(goal, lo, hi - 1).push((hi - 1) as u32)
    } else {
        accepted_seeds(goal, lo, hi - 1)
    }
}

/// `seed` is the least seed in `[lo, hi)` that the goal accepts.
pub open spec fn is_first(goal: Goal, lo: int, hi: int, seed: u32) -> bool {
    &&& lo <= seed < hi
    &&& goal.accepts(seed)
    &&& forall|t: u32| lo <= t < seed ==> !goal.accepts(t)
}

/// The goal accepts no seed in `[lo, hi)`.
pub open spec fn none_in(goal: Goal, lo: int, hi: int) -> bool {
    forall|t: u32| lo <= t < hi ==> !goal.accepts(t)
}

/// `accepted_seeds` holds exactly the accepted seeds of the range, each once and
/// in strictly ascending order.
pub proof fn lemma_accepted_seeds_exact(goal: Goal, lo: int, hi: int)
    requires
        0 <= lo,
        hi <= SEED_SPACE,
    ensures
        forall|s: u32| #[trigger]
            accepted_seeds(goal, lo, hi).contains(s) <==> (lo <= s < hi && goal.accepts(s)),
        forall|i: int| 0 <= i < accepted_seeds(goal, lo, hi).len() ==> lo <= #[trigger] accepted_seeds(goal, lo, hi)[i] < hi,
        forall|i: int, j: int|
            0 <= i < j < accepted_seeds(goal, lo, hi).len() ==> accepted_seeds(goal, lo, hi)[i] < accepted_seeds(
                goal,
                lo,
                hi,
            )[j],
    decreases hi - lo,
{
    if lo < hi {
        lemma_accepted_seeds_exact(goal, lo, hi - 1);
        let rest = accepted_seeds(goal, lo, hi - 1);
        let last = (hi - 1) as u32;
        let all = accepted_seeds(goal, lo, hi);
        if goal.accepts(last) {
            assert(all == rest.push(last));
            assert(all[rest.len() as int] == last);
            assert forall|s: u32| #[trigger] all.contains(s) <==> (lo <= s < hi && goal.accepts(s)) by {
                if all.contains(s) {
                    let k = choose|k: int| 0 <= k < all.len() && all[k] == s;
                    if k < rest.len() {
                        assert(rest[k] == s);
                        assert(rest.contains(s));
                    }
                }
                if lo <= s < hi && goal.accepts(s) {
                    if s == last {
                        assert(all[rest.len() as int] == s);
                    } else {
                        assert(rest.contains(s));
                        let k = choose|k: int| 0 <= k < rest.len() && rest[k] == s;
                        assert(all[k] == s);
                    }
                }
            }
        } else {
            assert(all == rest);
        }
    }
}

/// How many seeds each part of `[lo, hi)` holds when the range is cut for
/// `workers` workers; the last part may hold fewer.
pub open spec fn part_width(lo: int, hi: int, workers: int) -> int {
    if workers <= 1 {
        hi - lo
    } else {
        (hi - lo) / workers + 1
    }
}

/// The parts follow one another from `lo` to `hi` without gap or overlap,
/// none is empty, and each but the last holds `width` seeds.
pub open spec fn cuts(parts: Seq<(u64, u64)>, lo: int, hi: int, width: int) -> bool {
    &&& lo >= hi ==> parts.len() == 0
    &&& lo < hi ==> parts.len() > 0 && parts[0].0 == lo && parts[parts.len() - 1].1 == hi
    &&& forall|i: int| 0 <= i < parts.len() ==> 0 < (#[trigger] parts[i]).1 - parts[i].0 <= width
    &&& forall|i: int|
        0 <= i < parts.len() - 1 ==> (#[trigger] parts[i]).1 == parts[i + 1].0 && parts[i].1
            - parts[i].0 == width
}

/// Cuts `[lo, hi)` into consecutive parts of equal width, at most one per
/// worker, for searches that run side by side.
pub fn split_range(lo: u64, hi: u64, workers: u64) -> (parts: Vec<(u64, u64)>)
    ensures
        cuts(parts@, lo as int, hi as int, part_width(lo as int, hi as int, workers as int)),
        parts@.len() <= workers || parts@.len() <= 1,
{
    let mut parts: Vec<(u64, u64)> = Vec::new();
    if lo >= hi {
        return parts;
    }
    let width: u64 = if workers <= 1 {
        hi - lo
    } else {
        proof {
            lemma_div_is_ordered_by_denominator(hi - lo, 2, workers as int);
        }
        (hi - lo) / workers + 1
    };
    let ghost n: int = if workers <= 1 { 1 } else { workers as int };
    proof {
        let d: int = hi - lo;
        if workers > 1 {
            assert(n * (d / n + 1) > d) by (nonlinear_arith)
                requires
                    n > 0,
                    d >= 0,
            ;
        }
        assert(n * width >= hi - lo);
    }
    let mut next: u64 = lo;
    while next < hi
        invariant
            lo < hi,
            lo <= next <= hi,
            width > 0,
            width == part_width(lo as int, hi as int, workers as int),
            n >= 1,
            n * width >= hi - lo,
            next < hi ==> next - lo == parts@.len() * width,
            parts@.len() <= n,
            next == lo <==> parts@.len() == 0,
            parts@.len() > 0 ==> parts@[0].0 == lo && parts@[parts@.len() - 1].1 == next,
            forall|i: int|
                0 <= i < parts@.len() ==> 0 < (#[trigger] parts@[i]).1 - parts@[i].0 <= width,
            forall|i: int|
                0 <= i < parts@.len() - 1 ==> (#[trigger] parts@[i]).1 == parts@[i + 1].0
                    && parts@[i].1 - parts@[i].0 == width,
            next < hi ==> forall|i: int|
                0 <= i < parts@.len() ==> (#[trigger] parts@[i]).1 - parts@[i].0 == width,
        decreases hi - next,
    {
        let end: u64 = if hi - next <= width {
            hi
        } else {
            next + width
        };
        proof {
            let k: int = parts@.len() as int;
            assert(k < n) by (nonlinear_arith)
                requires
                    k * width < n * width,
                    width > 0,
            ;
            assert((k + 1) * width == k * width + width) by (nonlinear_arith);
        }
        parts.push((next, end));
        next = end;
    }
    parts
}

/// Every seed in `[lo, hi)` that the target accepts, in ascending order.
pub fn find_all(target: &Target, lo: u64, hi: u64) -> (found: Vec<u32>)
    requires
        hi <= SEED_SPACE,
    ensures
        found@ == accepted_seeds(target@, lo as int, hi as int),
{
    let mut found: Vec<u32> = Vec::new();
    let mut next: u64 = lo;
    while next < hi
        invariant
            hi <= SEED_SPACE,
            lo <= next,
            next <= hi || next == lo,
            found@ == accepted_seeds(target@, lo as int, next as int),
        decreases hi - next,
    {
        let seed: u32 = next as u32;
        if target.test(seed) {
            found.push(seed);
        }
        next = next + 1;
    }
    found
}

/// The least seed in `[lo, hi)` that the target accepts, if there is one.
/// The scan ends at the first seed accepted.
pub fn find_first(target: &Target, lo: u64, hi: u64) -> (first: Option<u32>)
    requires
        hi <= SEED_SPACE,
    ensures
        match first {
            Some(seed) => is_first(target@, lo as int, hi as int, seed),
            None => none_in(target@, lo as int, hi as int),
        },
{
    let mut next: u64 = lo;
    while next < hi
        invariant
            hi <= SEED_SPACE,
            lo <= next,
            next <= hi || next == lo,
            none_in(target@, lo as int, next as int),
        decreases hi - next,
    {
        let seed: u32 = next as u32;
        if target.test(seed) {
            return Some(seed);
        }
        next = next + 1;
    }
    None
}

} // verus!
