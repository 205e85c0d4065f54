use bashrand::alphabet::encode_outputs;
use bashrand::cli::{check_outputs, Args, Error, SubCommands, Version};
use bashrand::commands::{
    collide, crack_certain, crack_uncertain, gen_pass, password_search, require_found, SeedMatch,
};
use bashrand::generator::{Generator, Variant};
use bashrand::search::{
    find_all, find_first, seed_collides, seed_spells, split_range, window_matches, Target,
    SEED_SPACE,
};

#[test]
fn one_draw_search_is_sound() {
    let target = Target::window(&[16807], Variant::Old);
    let found = find_all(&target, 0, 200_000);
    assert!(found.contains(&1));
    for seed in found {
        assert_eq!(Generator::new(seed, Variant::Old).advance(), 16807);
    }
}

#[test]
fn two_draw_search_round_trips() {
    for variant in [Variant::Old, Variant::New] {
        let window = Generator::new(54321, variant).take(2);
        let found = find_all(&Target::window(&window, variant), 50_000, 60_000);
        assert_eq!(found, vec![54321]);
        for seed in found {
            assert_eq!(Generator::new(seed, variant).take(2), window);
        }
    }
}

#[test]
fn three_draws_of_seed_42_lead_back_to_it() {
    let window = Generator::new(42, Variant::Old).take(3);
    assert_eq!(
        crack_certain(&window, Version::Old, 0, 100),
        Ok(Some(SeedMatch { seed: 42, variant: Variant::Old }))
    );
    assert_eq!(
        crack_certain(&window, Version::Both, 0, 100),
        Ok(Some(SeedMatch { seed: 42, variant: Variant::Old }))
    );
    assert_eq!(crack_certain(&window, Version::New, 0, 100), Ok(None));
    assert_eq!(crack_certain(&window, Version::Old, 43, 100), Ok(None));
    assert_eq!(crack_certain(&window, Version::Old, 0, 42), Ok(None));
}

#[test]
fn certain_search_tries_the_new_variant_first() {
    // Seed 1 steps to 16807, which both variants show unchanged.
    assert_eq!(
        crack_certain(&[16807, 10791, 19566], Version::Both, 0, 10),
        Ok(Some(SeedMatch { seed: 1, variant: Variant::New }))
    );
    assert_eq!(
        crack_certain(&[16807, 15089, 11481], Version::Both, 0, 10),
        Ok(Some(SeedMatch { seed: 1, variant: Variant::Old }))
    );
}

#[test]
fn certain_search_checks_its_values() {
    assert_eq!(crack_certain(&[1, 2, 32768], Version::Both, 0, 10), Err(Error::OutputTooLarge));
    assert_eq!(crack_certain(&[1, 2], Version::Both, 0, 10), Err(Error::WrongCount));
    assert_eq!(crack_certain(&[1, 40000], Version::Both, 0, 10), Err(Error::OutputTooLarge));
    assert_eq!(crack_certain(&[1, 2, 32767], Version::Both, 0, 0), Ok(None));
}

#[test]
fn uncertain_search_lists_new_matches_first() {
    // Seeds 1, 2 and 3 step to registers below 65536, and register 0 steps
    // as 123459876 does.
    let found = crack_uncertain(&[16807, 10791], Version::Both, 0, 10).unwrap();
    assert_eq!(found, vec![SeedMatch { seed: 1, variant: Variant::New }]);
    let found = crack_uncertain(&[16807, 15089], Version::Both, 0, 10).unwrap();
    assert_eq!(found, vec![SeedMatch { seed: 1, variant: Variant::Old }]);
    let window = Generator::new(0, Variant::Old).take(2);
    let found = crack_uncertain(&window, Version::Old, 0, 123_459_877).map(|v| v.len());
    assert_eq!(found, Ok(2));
}

#[test]
fn uncertain_search_checks_its_values() {
    assert_eq!(crack_uncertain(&[1, 32768], Version::Both, 0, 10), Err(Error::OutputTooLarge));
    assert_eq!(crack_uncertain(&[1, 2, 3], Version::Both, 0, 10), Err(Error::WrongCount));
    assert_eq!(crack_uncertain(&[32767, 32767], Version::Both, 0, 0), Ok(vec![]));
}

#[test]
fn collision_search_returns_the_seeds_both_variants_agree_on() {
    assert_eq!(collide(16807, Version::Both, 0, 4), Ok(vec![1]));
    let found = collide(846, Version::Both, 0, 100_000).unwrap();
    assert!(found.contains(&2));
    for seed in 0..100_000u32 {
        let old = Generator::new(seed, Variant::Old).advance();
        let new = Generator::new(seed, Variant::New).advance();
        assert_eq!(found.contains(&seed), old == 846 && new == 846);
        assert_eq!(seed_collides(seed, 846), old == 846 && new == 846);
    }
}

#[test]
fn collision_search_with_one_variant_is_a_one_draw_search() {
    // Seed 4 steps to 67228: the old variant shows 1692, the new one 1693.
    assert_eq!(collide(1692, Version::Old, 0, 10), Ok(vec![4]));
    assert_eq!(collide(1693, Version::New, 0, 10), Ok(vec![4]));
    assert_eq!(collide(1692, Version::Both, 0, 10), Ok(vec![]));
    assert_eq!(collide(32768, Version::Old, 0, 10), Err(Error::OutputTooLarge));
    assert_eq!(collide(32767, Version::Old, 0, 0), Ok(vec![]));
}

#[test]
fn password_search_finds_the_timestamp() {
    let timestamp: u32 = 90_061;
    let draws = Generator::new(timestamp, Variant::Old).take(3);
    let password = encode_outputs(&draws);
    let found = password_search(&password, 0, u64::from(timestamp) + 1);
    assert!(!found.is_empty());
    let last = &found[found.len() - 1];
    assert_eq!(last.seed, timestamp);
    assert_eq!(last.date, "1970-01-02 01:01:01");
    for m in &found {
        assert!(seed_spells(m.seed, &password.chars().collect::<Vec<char>>()));
    }
    assert!(password_search(&password, 0, u64::from(timestamp)).iter().all(|m| m.seed != timestamp));
}

#[test]
fn password_search_dates_each_seed() {
    let draws = Generator::new(1_700_000_000, Variant::Old).take(6);
    let password = encode_outputs(&draws);
    let found = password_search(&password, 1_699_999_000, 1_700_000_001);
    assert_eq!(found.len(), 1);
    assert_eq!(found[0].seed, 1_700_000_000);
    assert_eq!(found[0].date, "2023-11-14 22:13:20");
}

#[test]
fn password_search_accepts_nothing_for_odd_text() {
    assert!(password_search("", 0, 1000).is_empty());
    assert!(password_search("a-b", 0, 1000).is_empty());
    assert!(password_search("é", 0, 1000).is_empty());
    assert!(!seed_spells(5, &[]));
}

#[test]
fn gen_pass_spells_ten_draws() {
    let draws = [0, 9, 10, 35, 36, 61, 62, 63, 124, 32767];
    assert_eq!(gen_pass(&draws), Ok(String::from("09AZaz010V")));
    assert_eq!(gen_pass(&draws), gen_pass(&draws));
    assert_eq!(gen_pass(&[0, 1, 2, 3, 4, 5, 6, 7, 8, 32768]), Err(Error::OutputTooLarge));
}

#[test]
fn largest_draw_is_accepted_and_the_next_value_is_not() {
    assert_eq!(check_outputs(&[32767]), Ok(()));
    assert_eq!(check_outputs(&[32768]), Err(Error::OutputTooLarge));
    assert_eq!(check_outputs(&[]), Ok(()));
    assert_eq!(check_outputs(&[0, 32767, 65535]), Err(Error::OutputTooLarge));
    let ok = [
        SubCommands::Crack { numbers: vec![32767, 32767] },
        SubCommands::Crack { numbers: vec![32767, 0, 32767] },
        SubCommands::Collide { n: 32767 },
        SubCommands::GenPass { numbers: vec![32767; 10] },
    ];
    for command in ok {
        assert_eq!(command.validate(), Ok(()));
    }
    let bad = [
        SubCommands::Crack { numbers: vec![32768, 0] },
        SubCommands::Crack { numbers: vec![0, 0, 32768] },
        SubCommands::Collide { n: 32768 },
        SubCommands::GenPass { numbers: vec![32768; 10] },
    ];
    for command in bad {
        assert_eq!(command.validate(), Err(Error::OutputTooLarge));
    }
}

#[test]
fn validation_counts_the_values() {
    assert_eq!(SubCommands::Crack { numbers: vec![1] }.validate(), Err(Error::WrongCount));
    assert_eq!(SubCommands::Crack { numbers: vec![1, 2, 3, 4] }.validate(), Err(Error::WrongCount));
    assert_eq!(SubCommands::Crack { numbers: vec![1, 2, 3, 40000] }.validate(), Err(Error::OutputTooLarge));
    assert_eq!(SubCommands::GenPass { numbers: vec![1; 9] }.validate(), Err(Error::WrongCount));
    assert_eq!(SubCommands::Get { seed: 1, skip: 2 }.validate(), Ok(()));
    assert_eq!(SubCommands::Seeds { seed: 1 }.validate(), Ok(()));
    assert_eq!(SubCommands::Password { password: String::new() }.validate(), Ok(()));
    let args = Args { command: SubCommands::Collide { n: 40000 }, version: Version::Both, number: 10 };
    assert_eq!(args.validate(), Err(Error::OutputTooLarge));
}

#[test]
fn version_selects_variants() {
    assert!(Version::Old.has_old() && !Version::Old.has_new());
    assert!(!Version::New.has_old() && Version::New.has_new());
    assert!(Version::Both.has_old() && Version::Both.has_new());
}

#[test]
fn errors_have_their_sentences() {
    assert_eq!(Error::OutputTooLarge.message(), "Numbers must be at most 15 bits (max: 32767)");
    assert_eq!(Error::NotFound.message(), "Couldn't find seed");
    assert_eq!(Error::WrongCount.message(), "Wrong number of values");
    assert_eq!(require_found(0), Err(Error::NotFound));
    assert_eq!(require_found(3), Ok(3));
}

#[test]
fn find_first_returns_the_least_seed() {
    let target = Target::window(&[16807], Variant::Old);
    let all = find_all(&target, 0, 300_000);
    assert!(all.len() >= 2);
    assert_eq!(find_first(&target, 0, 300_000), Some(all[0]));
    assert_eq!(find_first(&target, u64::from(all[0]) + 1, 300_000), Some(all[1]));
    assert_eq!(find_first(&target, 0, u64::from(all[0])), None);
    assert!(all.windows(2).all(|w| w[0] < w[1]));
}

#[test]
fn searches_reach_the_last_seed() {
    let window = Generator::new(4294967295, Variant::Old).take(3);
    let target = Target::window(&window, Variant::Old);
    assert_eq!(find_all(&target, 4294967000, 4294967296), vec![4294967295]);
    assert!(target.test(4294967295));
    assert!(window_matches(4294967295, Variant::Old, &window));
    assert!(!window_matches(4294967294, Variant::Old, &window));
    assert!(window_matches(7, Variant::Old, &[]));
}

#[test]
fn new_variant_has_seeds_that_draw_alike() {
    // 4294967293 steps to 2147483647 - 16807, whose folded halves show what
    // those of 16807 show.
    let window = Generator::new(4294967295, Variant::New).take(3);
    let target = Target::window(&window, Variant::New);
    assert_eq!(find_all(&target, 4294967000, 4294967296), vec![4294967293, 4294967295]);
    assert_eq!(
        crack_certain(&window, Version::New, 4294967000, 4294967296),
        Ok(Some(SeedMatch { seed: 4294967293, variant: Variant::New }))
    );
}

#[test]
fn ranges_are_cut_in_equal_parts() {
    assert_eq!(split_range(0, 10, 3), vec![(0, 4), (4, 8), (8, 10)]);
    assert_eq!(split_range(0, 3, 10), vec![(0, 1), (1, 2), (2, 3)]);
    assert_eq!(split_range(7, 17, 1), vec![(7, 17)]);
    assert_eq!(split_range(7, 17, 0), vec![(7, 17)]);
    assert_eq!(split_range(5, 5, 3), vec![]);
    assert_eq!(split_range(9, 5, 3), vec![]);
    let parts = split_range(0, SEED_SPACE, 8);
    assert_eq!(parts.len(), 8);
    assert_eq!(parts[0], (0, (1 << 29) + 1));
    assert_eq!(parts[7].1, SEED_SPACE);
    assert_eq!(split_range(0, u64::MAX, 2).len(), 2);
}

#[test]
fn search_in_parts_finds_what_the_whole_search_finds() {
    let target = Target::window(&[846], Variant::New);
    let whole = find_all(&target, 0, 400_000);
    let mut joined = Vec::new();
    for (lo, hi) in split_range(0, 400_000, 7) {
        joined.extend(find_all(&target, lo, hi));
    }
    assert_eq!(joined, whole);
    assert!(whole.contains(&2));
    assert_eq!(find_all(&target, 10, 5), Vec::<u32>::new());
    assert_eq!(find_first(&target, 10, 5), None);
}
