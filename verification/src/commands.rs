//! The commands, from plain values to plain values: each checks what it is
//! given, runs the generator or a search over a range of seeds, and returns
//! what is to be shown.

use vstd::prelude::*;
use crate::alphabet::{encode_all, encode_outputs};
use crate::cli::{all_in_range, check_outputs, Error, Version};
use crate::date::{format_utc, utc_date_text};
use crate::generator::{
    draw, lemma_outputs_after_skip, outputs, states, Generator, Variant, BASH_RAND_MAX,
};
use crate::search::{
    accepted_seeds, find_all, find_first, is_first, none_in, Goal, Target, SEED_SPACE,
};

verus! {

/// A seed that a search confirmed, with the variant under which it holds.
#[derive(Copy, Clone, PartialEq, Eq, Structural, Debug)]
pub struct SeedMatch {
    pub seed: u32,
    pub variant: Variant,
}

/// A timestamp seed that spells a password, with its calendar date.
#[derive(Debug)]
pub struct PasswordMatch {
    pub seed: u32,
    pub date: String,
}

/// The seeds, each paired with the variant.
pub open spec fn tagged(seeds: Seq<u32>, variant: Variant) -> Seq<SeedMatch> {
    Seq::new(seeds.len(), |i: int| SeedMatch { seed: seeds[i], variant })
}

/// The accepted seeds of the range under one variant, if it is selected.
pub open spec fn selected_matches(
    window: Seq<u16>,
    version: Version,
    variant: Variant,
    lo: int,
    hi: int,
) -> Seq<SeedMatch> {
    if version.includes(variant) {
        tagged(accepted_seeds(Goal::Window(window, variant), lo, hi), variant)
    } else {
        Seq::empty()
    }
}

/// What the search with a cut-off owes: the least seed of the range under
/// the new variant where that is selected and has one; else the least under
/// the old variant where that is selected and has one; else nothing.
pub open spec fn certain_answer(
    window: Seq<u16>,
    version: Version,
    lo: int,
    hi: int,
    found: Option<SeedMatch>,
) -> bool {
    let new_goal = Goal::Window(window, Variant::New);
    let old_goal = Goal::Window(window, Variant::Old);
    match found {
        Some(m) => match m.variant {
            Variant::New => version.includes(Variant::New) && is_first(new_goal, lo, hi, m.seed),
            Variant::Old => {
                &&& version.includes(Variant::Old)
                &&& is_first(old_goal, lo, hi, m.seed)
                &&& version.includes(Variant::New) ==> none_in(new_goal, lo, hi)
            },
        },
        None => {
            &&& version.includes(Variant::New) ==> none_in(new_goal, lo, hi)
            &&& version.includes(Variant::Old) ==> none_in(old_goal, lo, hi)
        },
    }
}

/// What a collision search looks for: with both variants, seeds on which
/// they agree on `n`; with one, seeds whose first draw under it is `n`.
pub open spec fn collision_goal(n: u16, version: Version) -> Goal {
    match version {
        Version::Both => Goal::Collision(n),
        Version::New => Goal::Window(seq![n], Variant::New),
        Version::Old => Goal::Window(seq![n], Variant::Old),
    }
}

/// Pairs each seed with the variant.
fn tag(seeds: &Vec<u32>, variant: Variant, out: &mut Vec<SeedMatch>)
    ensures
        final(out)@ == old(out)@ + tagged(seeds@, variant),
{
    let mut i: usize = 0;
    while i < seeds.len()
        invariant
            i <= seeds.len(),
            out@ =~= old(out)@ + tagged(seeds@.subrange(0, i as int), variant),
        decreases seeds.len() - i,
    {
        out.push(SeedMatch { seed: seeds[i], variant });
        i = i + 1;
    }
    proof {
        assert(seeds@.subrange(0, i as int) =~= seeds@);
    }
}

/// The search for three draws, over the seeds in `[lo, hi)`: the new
/// variant is tried first, each scan ends at its first seed, and the old
/// variant is scanned only where the new one gave nothing.
pub fn crack_certain(numbers: &[u16], version: Version, lo: u64, hi: u64) -> (r: Result<
    Option<SeedMatch>,
    Error,
>)
    requires
        hi <= SEED_SPACE,
    ensures
        !all_in_range(numbers@) ==> r == Err::<Option<SeedMatch>, Error>(Error::OutputTooLarge),
        all_in_range(numbers@) && numbers@.len() != 3 ==> r == Err::<Option<SeedMatch>, Error>(
            Error::WrongCount,
        ),
        all_in_range(numbers@) && numbers@.len() == 3 ==> r is Ok && certain_answer(
            numbers@,
            version,
            lo as int,
            hi as int,
            r->Ok_0,
        ),
{
    match check_outputs(numbers) {
        Err(e) => {
            return Err(e);
        },
        Ok(()) => {},
    }
    if numbers.len() != 3 {
        return Err(Error::WrongCount);
    }
    if version.has_new() {
        let target: Target = Target::window(numbers, Variant::New);
        match find_first(&target, lo, hi) {
            Some(seed) => {
                return Ok(Some(SeedMatch { seed, variant: Variant::New }));
            },
            None => {},
        }
    }
    if version.has_old() {
        let target: Target = Target::window(numbers, Variant::Old);
        match find_first(&target, lo, hi) {
            Some(seed) => {
                return Ok(Some(SeedMatch { seed, variant: Variant::Old }));
            },
            None => {},
        }
    }
    Ok(None)
}

/// The search for two draws, over the seeds in `[lo, hi)`: every seed that
/// reproduces them, those of the new variant first, each group ascending.
pub fn crack_uncertain(numbers: &[u16], version: Version, lo: u64, hi: u64) -> (r: Result<
    Vec<SeedMatch>,
    Error,
>)
    requires
        hi <= SEED_SPACE,
    ensures
        !all_in_range(numbers@) ==> r == Err::<Vec<SeedMatch>, Error>(Error::OutputTooLarge),
        all_in_range(numbers@) && numbers@.len() != 2 ==> r == Err::<Vec<SeedMatch>, Error>(
            Error::WrongCount,
        ),
        all_in_range(numbers@) && numbers@.len() == 2 ==> r is Ok && r->Ok_0@ == selected_matches(
            numbers@,
            version,
            Variant::New,
            lo as int,
            hi as int,
        ) + selected_matches(numbers@, version, Variant::Old, lo as int, hi as int),
{
    match check_outputs(numbers) {
        Err(e) => {
            return Err(e);
        },
        Ok(()) => {},
    }
    if numbers.len() != 2 {
        return Err(Error::WrongCount);
    }
    let mut all: Vec<SeedMatch> = Vec::new();
    if version.has_new() {
        let target: Target = Target::window(numbers, Variant::New);
        let seeds: Vec<u32> = find_all(&target, lo, hi);
        tag(&seeds, Variant::New, &mut all);
    }
    if version.has_old() {
        let target: Target = Target::window(numbers, Variant::Old);
        let seeds: Vec<u32> = find_all(&target, lo, hi);
        tag(&seeds, Variant::Old, &mut all);
    }
    Ok(all)
}

/// The collision search over the seeds in `[lo, hi)`, ascending.
pub fn collide(n: u16, version: Version, lo: u64, hi: u64) -> (r: Result<Vec<u32>, Error>)
    requires
        hi <= SEED_SPACE,
    ensures
        n > BASH_RAND_MAX ==> r == Err::<Vec<u32>, Error>(Error::OutputTooLarge),
        n <= BASH_RAND_MAX ==> r is Ok && r->Ok_0@ == accepted_seeds(
            collision_goal(n, version),
            lo as int,
            hi as int,
        ),
{
    if n > BASH_RAND_MAX {
        return Err(Error::OutputTooLarge);
    }
    let target: Target = match version {
        Version::Both => Target::Collision { value: n },
        Version::New => {
            let one: [u16; 1] = [n];
            proof {
                assert(one@ =~= seq![n]);
            }
            Target::window(one.as_slice(), Variant::New)
        },
        Version::Old => {
            let one: [u16; 1] = [n];
            proof {
                assert(one@ =~= seq![n]);
            }
            Target::window(one.as_slice(), Variant::Old)
        },
    };
    Ok(find_all(&target, lo, hi))
}

/// The password search over the timestamps in `[lo, hi)`: every seed that
/// spells the password under the old variant, ascending, each with its date.
pub fn password_search(password: &str, lo: u64, hi: u64) -> (found: Vec<PasswordMatch>)
    requires
        hi <= SEED_SPACE,
    ensures
        found@.len() == accepted_seeds(Goal::Password(password@), lo as int, hi as int).len(),
        forall|i: int|
            0 <= i < found@.len() ==> {
                &&& (#[trigger] found@[i]).seed == accepted_seeds(
                    Goal::Password(password@),
                    lo as int,
                    hi as int,
                )[i]
                &&& found@[i].date@ == utc_date_text(found@[i].seed)
            },
{
    let target: Target = Target::password(password);
    let seeds: Vec<u32> = find_all(&target, lo, hi);
    let mut found: Vec<PasswordMatch> = Vec::new();
    let mut i: usize = 0;
    while i < seeds.len()
        invariant
            i <= seeds.len(),
            found@.len() == i,
            forall|j: int|
                0 <= j < i ==> (#[trigger] found@[j]).seed == seeds@[j] && found@[j].date@
                    == utc_date_text(seeds@[j]),
        decreases seeds.len() - i,
    {
        let seed: u32 = seeds[i];
        found.push(PasswordMatch { seed, date: format_utc(seed) });
        i = i + 1;
    }
    found
}

/// The password that the given draws stand for.
pub fn gen_pass(numbers: &[u16]) -> (r: Result<String, Error>)
    ensures
        !all_in_range(numbers@) ==> r == Err::<String, Error>(Error::OutputTooLarge),
        all_in_range(numbers@) ==> r is Ok && r->Ok_0@ == encode_all(numbers@),
{
    match check_outputs(numbers) {
        Err(e) => Err(e),
        Ok(()) => Ok(encode_outputs(numbers)),
    }
}

/// The `number` draws that follow the first `skip` draws of a generator
/// seeded with `seed`.
pub fn replay(seed: u32, skip: usize, variant: Variant, number: usize) -> (next: Vec<u16>)
    ensures
        next@ == outputs(seed, variant, (skip + number) as nat).subrange(
            skip as int,
            skip + number,
        ),
{
    proof {
        lemma_outputs_after_skip(seed, variant, skip as nat, number as nat);
    }
    let mut g: Generator = Generator::new(seed, variant);
    g.skip(skip);
    g.take(number)
}

/// What is shown after a seed: nothing, the next draw, or the next draws.
#[derive(Debug)]
pub enum NextValues {
    Nothing,
    One(u16),
    Many(Vec<u16>),
}

/// What is shown of a generator seeded with `seed` once `skip` draws are
/// behind it: nothing where `number` is 0, the next draw where it is 1,
/// the next `number` draws otherwise.
pub fn next_values(seed: u32, skip: usize, variant: Variant, number: usize) -> (p: NextValues)
    ensures
        number == 0 ==> p is Nothing,
        number == 1 ==> p is One && p->One_0 == draw(seed, variant, skip as nat),
        number > 1 ==> p is Many && p->Many_0@ == outputs(
            seed,
            variant,
            (skip + number) as nat,
        ).subrange(skip as int, skip + number),
{
    proof {
        lemma_outputs_after_skip(seed, variant, skip as nat, number as nat);
    }
    let mut g: Generator = Generator::new(seed, variant);
    g.skip(skip);
    if number == 0 {
        NextValues::Nothing
    } else if number == 1 {
        NextValues::One(g.advance())
    } else {
        NextValues::Many(g.take(number))
    }
}

/// The `number` registers that follow `seed`; they are the same under
/// both variants.
pub fn next_seeds(seed: u32, number: usize) -> (next: Vec<u32>)
    ensures
        next@ == states(seed, number as nat),
{
    let mut g: Generator = Generator::new(seed, Variant::New);
    g.next_seed_n(number)
}

/// Turns a search that accepted nothing into the error that says so.
pub fn require_found(count: usize) -> (r: Result<usize, Error>)
    ensures
        r == if count == 0 {
            Err::<usize, Error>(Error::NotFound)
        } else {
            Ok::<usize, Error>(count)
        },
{
    if count == 0 {
        Err(Error::NotFound)
    } else {
        Ok(count)
    }
}

} // verus!
