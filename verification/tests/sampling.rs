use wordgen::config::GenerateSettings;
use wordgen::config::OutputSettings;
use wordgen::config::RejectGroup;
use wordgen::config::RewriteGroup;
use wordgen::config::Syllable;
use wordgen::config::WordGeneratorConfig;
use wordgen::errors::GenError;
use wordgen::rng::RandomSource;
use wordgen::sampler::get_random_from_weighted;
use wordgen::sampler::WeightedItem;
use wordgen::word::WordFactory;

fn item(value: &str, weight: u32) -> WeightedItem {
    WeightedItem { value: value.to_string(), weight }
}

fn syllable(string: &str, weight: u32, first: bool, last: bool) -> Syllable {
    Syllable {
        string: string.to_string(),
        weight,
        only_first_syllable: first,
        only_last_syllable: last,
    }
}

#[test]
fn empirical_frequencies_follow_the_weights() {
    let candidates = vec![item("a", 1), item("b", 3)];
    let mut rng = RandomSource::from_seed(42);
    let draws = 8000;
    let mut count_a = 0;
    for _ in 0..draws {
        match get_random_from_weighted(&mut rng, &candidates) {
            Ok(s) => {
                if s == "a" {
                    count_a += 1;
                }
            }
            Err(e) => panic!("unexpected sampling failure: {:?}", e),
        }
    }
    // expected a-share is 1/4 of 8000 = 2000; allow a generous band
    assert!(count_a > 1500, "a drawn only {} times", count_a);
    assert!(count_a < 2500, "a drawn {} times", count_a);
}

#[test]
fn zero_weight_candidates_are_never_drawn() {
    let candidates = vec![item("a", 0), item("b", 2), item("c", 0)];
    let mut rng = RandomSource::from_seed(3);
    for _ in 0..200 {
        assert_eq!(get_random_from_weighted(&mut rng, &candidates), Ok("b".to_string()));
    }
}

#[test]
fn empty_candidate_set_is_an_error() {
    let mut rng = RandomSource::from_seed(1);
    let empty: Vec<WeightedItem> = Vec::new();
    assert_eq!(get_random_from_weighted(&mut rng, &empty), Err(GenError::EmptyCandidateSet));
}

#[test]
fn all_zero_weights_are_an_error() {
    let mut rng = RandomSource::from_seed(1);
    let zeroed = vec![item("a", 0), item("b", 0)];
    assert_eq!(get_random_from_weighted(&mut rng, &zeroed), Err(GenError::EmptyCandidateSet));
}

fn pool_config(syllables: Vec<Syllable>) -> WordGeneratorConfig {
    WordGeneratorConfig {
        settings: GenerateSettings {
            output_file: "out".to_string(),
            syllable_decay_rate: 0,
            max_syllables: 3,
            word_count: 1,
            rewrites_before_rejects: false,
            debug_use_static_wordlist: false,
            output_settings: OutputSettings {
                show_syllable_generation: false,
                show_word_rewrites: false,
                show_full_word_transforms: false,
                only_mark_rejects: false,
            },
        },
        graphemes: Vec::new(),
        syllables,
        rewrites: RewriteGroup { syllable_rewrites: Vec::new(), grapheme_rewrites: Vec::new() },
        rejects: RejectGroup { syllable_rejects: Vec::new(), grapheme_rejects: Vec::new() },
    }
}

fn names(pool: &Vec<WeightedItem>) -> Vec<String> {
    pool.iter().map(|w| w.value.clone()).collect()
}

#[test]
fn pools_are_partitioned_by_the_position_flags() {
    let config = pool_config(vec![
        syllable("n", 1, false, false),
        syllable("f", 2, true, false),
        syllable("l", 3, false, true),
        syllable("fl", 4, true, true),
    ]);
    let factory = WordFactory::from_config(&config);
    assert_eq!(names(&factory.first_syllable_list), vec!["n", "f", "fl"]);
    assert_eq!(names(&factory.normal_syllable_list), vec!["n"]);
    assert_eq!(names(&factory.last_syllable_list), vec!["n", "l", "fl"]);
    assert_eq!(factory.first_syllable_list[1].weight, 2);
    assert_eq!(factory.last_syllable_list[1].weight, 3);
}

#[test]
fn first_only_symbol_never_reaches_the_last_pool() {
    let config = pool_config(vec![syllable("n", 1, false, false), syllable("f", 2, true, false)]);
    let factory = WordFactory::from_config(&config);
    assert!(names(&factory.last_syllable_list).iter().all(|n| n != "f"));
    assert!(names(&factory.first_syllable_list).iter().any(|n| n == "f"));
}
