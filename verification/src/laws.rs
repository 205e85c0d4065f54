//! What holds of the searches as a whole, proved from the definitions that
//! the contracts of the generator and of the searches are stated over.

use vstd::prelude::*;
use crate::alphabet::encode_all;
use crate::commands::{certain_answer, SeedMatch};
use crate::cli::Version;
use crate::generator::{draw, outputs, Variant};
use crate::search::{
    accepted_seeds, is_first, lemma_accepted_seeds_exact, none_in, reproduces, Goal, SEED_SPACE,
};

verus! {

/// Every seed that a search for a window returns yields exactly that window
/// when its generator is run again, whatever the window's length.
pub proof fn lemma_window_search_sound(window: Seq<u16>, variant: Variant, lo: int, hi: int)
    requires
        0 <= lo,
        hi <= SEED_SPACE,
    ensures
        forall|i: int|
            0 <= i < accepted_seeds(Goal::Window(window, variant), lo, hi).len() ==> outputs(
                #[trigger] accepted_seeds(Goal::Window(window, variant), lo, hi)[i],
                variant,
                window.len(),
            ) == window,
{
    let goal = Goal::Window(window, variant);
    let found = accepted_seeds(goal, lo, hi);
    lemma_accepted_seeds_exact(goal, lo, hi);
    assert forall|i: int| 0 <= i < found.len() implies outputs(
        #[trigger] found[i],
        variant,
        window.len(),
    ) == window by {
        assert(found.contains(found[i]));
    }
}

/// A search for the draws of a known seed, over a range that holds the
/// seed, returns that seed among the others; and a scan that ends at its
/// first seed ends at that seed or before it.
pub proof fn lemma_generated_window_found(seed: u32, variant: Variant, n: nat, lo: int, hi: int)
    requires
        0 <= lo <= seed < hi <= SEED_SPACE,
    ensures
        accepted_seeds(Goal::Window(outputs(seed, variant, n), variant), lo, hi).contains(seed),
        !none_in(Goal::Window(outputs(seed, variant, n), variant), lo, hi),
        forall|s: u32|
            is_first(Goal::Window(outputs(seed, variant, n), variant), lo, hi, s) ==> s <= seed,
{
    let goal = Goal::Window(outputs(seed, variant, n), variant);
    assert(outputs(seed, variant, n).len() == n);
    assert(goal.accepts(seed));
    lemma_accepted_seeds_exact(goal, lo, hi);
}

/// The search with a cut-off, given the three draws of a known seed under a
/// selected variant and a range that holds the seed, returns a seed, and
/// that seed yields the same three draws under the variant it is returned
/// with. Where that is the variant of the known seed, no smaller seed of
/// the range does the same.
pub proof fn lemma_certain_search_complete(
    seed: u32,
    variant: Variant,
    version: Version,
    lo: int,
    hi: int,
    found: Option<SeedMatch>,
)
    requires
        0 <= lo <= seed < hi <= SEED_SPACE,
        version.includes(variant),
        certain_answer(outputs(seed, variant, 3), version, lo, hi, found),
    ensures
        found is Some,
        reproduces(found->0.seed, found->0.variant, outputs(seed, variant, 3)),
        found->0.variant == variant ==> found->0.seed <= seed,
{
    lemma_generated_window_found(seed, variant, 3, lo, hi);
}

/// A range may be searched in parts: the seeds found in `[lo, mid)`,
/// followed by those found in `[mid, hi)`, are the seeds found in `[lo, hi)`,
/// wherever the range is cut.
pub proof fn lemma_search_in_parts(goal: Goal, lo: int, mid: int, hi: int)
    requires
        0 <= lo <= mid <= hi <= SEED_SPACE,
    ensures
        accepted_seeds(goal, lo, hi) == accepted_seeds(goal, lo, mid) + accepted_seeds(
            goal,
            mid,
            hi,
        ),
    decreases hi - mid,
{
    if mid < hi {
        lemma_search_in_parts(goal, lo, mid, hi - 1);
        assert(accepted_seeds(goal, lo, hi) =~= accepted_seeds(goal, lo, mid) + accepted_seeds(
            goal,
            mid,
            hi,
        ));
    } else {
        assert(accepted_seeds(goal, lo, hi) =~= accepted_seeds(goal, lo, mid) + accepted_seeds(
            goal,
            mid,
            hi,
        ));
    }
}

/// A collision search returns exactly the seeds of its range on which both
/// variants yield the value as their first draw.
pub proof fn lemma_collision_search_exact(n: u16, lo: int, hi: int)
    requires
        0 <= lo,
        hi <= SEED_SPACE,
    ensures
        forall|s: u32| #[trigger]
            accepted_seeds(Goal::Collision(n), lo, hi).contains(s) <==> (lo <= s < hi && draw(
                s,
                Variant::Old,
                0,
            ) == n && draw(s, Variant::New, 0) == n),
{
    lemma_accepted_seeds_exact(Goal::Collision(n), lo, hi);
}

/// The password that the old variant spells from a timestamp is found
/// again at that timestamp by a search over all timestamps up to it.
pub proof fn lemma_password_round_trip(timestamp: u32, n: nat)
    requires
        n > 0,
    ensures
        accepted_seeds(
            Goal::Password(encode_all(outputs(timestamp, Variant::Old, n))),
            0,
            timestamp + 1,
        ).contains(timestamp),
{
    let text = encode_all(outputs(timestamp, Variant::Old, n));
    let goal = Goal::Password(text);
    assert(outputs(timestamp, Variant::Old, n).len() == n);
    assert(text.len() == n);
    assert(goal.accepts(timestamp));
    lemma_accepted_seeds_exact(goal, 0, timestamp + 1);
}

} // verus!
