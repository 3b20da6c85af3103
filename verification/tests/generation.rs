use wordgen::config::generate_test_config;
use wordgen::config::GenerateSettings;
use wordgen::config::Grapheme;
use wordgen::config::GraphemeGroup;
use wordgen::config::OutputSettings;
use wordgen::config::RejectGroup;
use wordgen::config::Rewrite;
use wordgen::config::RewriteGroup;
use wordgen::config::Syllable;
use wordgen::config::WordGeneratorConfig;
use wordgen::errors::GenError;
use wordgen::errors::PoolKind;
use wordgen::pipeline::run_generation;
use wordgen::pipeline::transform_graphemes;
use wordgen::rng::RandomSource;
use wordgen::word::get_word_graphemes;

fn group(name: &str, graphemes: Vec<(&str, u32)>) -> GraphemeGroup {
    GraphemeGroup {
        name: name.to_string(),
        graphemes: graphemes
            .into_iter()
            .map(|(s, w)| Grapheme { string: s.to_string(), weight: w })
            .collect(),
    }
}

fn config(
    syllables: Vec<(&str, u32, bool, bool)>,
    graphemes: Vec<GraphemeGroup>,
    word_count: usize,
    only_mark_rejects: bool,
) -> WordGeneratorConfig {
    WordGeneratorConfig {
        settings: GenerateSettings {
            output_file: "out".to_string(),
            syllable_decay_rate: 500_000,
            max_syllables: 1,
            word_count,
            rewrites_before_rejects: false,
            debug_use_static_wordlist: false,
            output_settings: OutputSettings {
                show_syllable_generation: false,
                show_word_rewrites: false,
                show_full_word_transforms: false,
                only_mark_rejects,
            },
        },
        graphemes,
        syllables: syllables
            .into_iter()
            .map(|(s, w, f, l)| Syllable {
                string: s.to_string(),
                weight: w,
                only_first_syllable: f,
                only_last_syllable: l,
            })
            .collect(),
        rewrites: RewriteGroup { syllable_rewrites: Vec::new(), grapheme_rewrites: Vec::new() },
        rejects: RejectGroup { syllable_rejects: Vec::new(), grapheme_rejects: Vec::new() },
    }
}

#[test]
fn sole_graphemes_realize_deterministically() {
    let cfg = config(
        vec![("CV", 1, false, false)],
        vec![group("C", vec![("t", 1)]), group("V", vec![("a", 1)])],
        3,
        false,
    );
    let mut rng = RandomSource::from_seed(11);
    let words = run_generation(&cfg, &mut rng, 100).expect("generation should succeed");
    assert_eq!(words.len(), 3);
    for word in &words {
        assert_eq!(word.syllables, "CV");
        assert_eq!(word.syllable_count, 1);
        assert_eq!(word.graphemes, "ta");
        assert_eq!(get_word_graphemes(word), "ta");
    }
}

#[test]
fn drop_mode_returns_exactly_the_target_count_of_accepted_words() {
    let mut cfg = config(
        vec![("ab", 1, false, false), ("cd", 1, false, false)],
        vec![
            group("a", vec![("A", 1)]),
            group("b", vec![("B", 1)]),
            group("c", vec![("C", 1)]),
            group("d", vec![("D", 1)]),
        ],
        5,
        false,
    );
    cfg.rejects.syllable_rejects = vec!["a".to_string()];
    let mut rng = RandomSource::from_seed(99);
    let words = run_generation(&cfg, &mut rng, 10_000).expect("generation should succeed");
    assert_eq!(words.len(), 5);
    for word in &words {
        assert!(word.syllable_rejects.is_empty());
        assert!(word.grapheme_rejects.is_empty());
        assert_eq!(word.syllables, "cd");
        assert_eq!(word.graphemes, "CD");
    }
}

#[test]
fn drop_mode_reports_exhaustion_when_every_word_is_rejected() {
    let mut cfg = config(
        vec![("ab", 1, false, false)],
        vec![group("a", vec![("A", 1)]), group("b", vec![("B", 1)])],
        2,
        false,
    );
    cfg.rejects.syllable_rejects = vec![".".to_string()];
    let mut rng = RandomSource::from_seed(5);
    let result = run_generation(&cfg, &mut rng, 50);
    assert_eq!(result.err(), Some(GenError::GenerationExhausted));
}

#[test]
fn mark_mode_returns_exactly_the_target_count_regardless_of_rejects() {
    let mut cfg = config(
        vec![("ab", 1, false, false)],
        vec![group("a", vec![("A", 1)]), group("b", vec![("B", 1)])],
        4,
        true,
    );
    cfg.rejects.syllable_rejects = vec![".".to_string()];
    cfg.rejects.grapheme_rejects = vec!["A".to_string(), "B".to_string()];
    let mut rng = RandomSource::from_seed(21);
    let words = run_generation(&cfg, &mut rng, 50).expect("mark-mode should succeed");
    assert_eq!(words.len(), 4);
    for word in &words {
        assert_eq!(word.syllable_rejects, vec![".".to_string()]);
        assert_eq!(word.grapheme_rejects, vec!["A".to_string(), "B".to_string()]);
    }
}

#[test]
fn missing_grapheme_group_fails_before_any_word_is_generated() {
    let cfg = config(
        vec![("CV", 1, false, false)],
        vec![group("C", vec![("t", 1)])],
        3,
        false,
    );
    let mut rng = RandomSource::from_seed(1);
    let result = run_generation(&cfg, &mut rng, 100);
    assert_eq!(result.err(), Some(GenError::UnknownGraphemeGroup("V".to_string())));
}

#[test]
fn uncompilable_pattern_is_fatal_at_validation() {
    let mut cfg = config(
        vec![("C", 1, false, false)],
        vec![group("C", vec![("t", 1)])],
        1,
        false,
    );
    cfg.rewrites.syllable_rewrites = vec![Rewrite {
        pattern: "(".to_string(),
        replace: "x".to_string(),
    }];
    let mut rng = RandomSource::from_seed(1);
    let result = run_generation(&cfg, &mut rng, 100);
    assert_eq!(result.err(), Some(GenError::InvalidPattern("(".to_string())));
}

#[test]
fn empty_syllable_table_fails_with_an_empty_first_pool() {
    let cfg = config(Vec::new(), Vec::new(), 1, false);
    let mut rng = RandomSource::from_seed(1);
    let result = run_generation(&cfg, &mut rng, 100);
    assert_eq!(result.err(), Some(GenError::EmptyPool(PoolKind::First)));
}

#[test]
fn all_zero_weight_group_fails_with_an_empty_candidate_set() {
    let cfg = config(
        vec![("C", 1, false, false)],
        vec![group("C", vec![("t", 0)])],
        1,
        false,
    );
    let mut rng = RandomSource::from_seed(1);
    let result = run_generation(&cfg, &mut rng, 100);
    assert_eq!(result.err(), Some(GenError::EmptyCandidateSet));
}

#[test]
fn the_first_failing_unit_decides_the_validation_error_zero_weight_first() {
    // units are checked in order: "C" has a group with only zero weights,
    // so the empty candidate set is reported even though "V" has no group
    let cfg = config(
        vec![("CV", 1, false, false)],
        vec![group("C", vec![("t", 0)])],
        1,
        false,
    );
    let mut rng = RandomSource::from_seed(1);
    let result = run_generation(&cfg, &mut rng, 100);
    assert_eq!(result.err(), Some(GenError::EmptyCandidateSet));
}

#[test]
fn the_first_failing_unit_decides_the_validation_error_missing_group_first() {
    // same table, symbol reversed: "V" fails first and is named
    let cfg = config(
        vec![("VC", 1, false, false)],
        vec![group("C", vec![("t", 0)])],
        1,
        false,
    );
    let mut rng = RandomSource::from_seed(1);
    let result = run_generation(&cfg, &mut rng, 100);
    assert_eq!(result.err(), Some(GenError::UnknownGraphemeGroup("V".to_string())));
}

#[test]
fn rewrites_feed_the_realizer_and_order_against_rejects_matters() {
    // the rewrite turns the skeleton "C" into "CV"; rejects run before
    // rewrites here, so the pre-rewrite skeleton is what "V" is tested on
    let mut cfg = config(
        vec![("C", 1, false, false)],
        vec![group("C", vec![("t", 1)]), group("V", vec![("a", 1)])],
        2,
        false,
    );
    cfg.rewrites.syllable_rewrites = vec![Rewrite {
        pattern: "C".to_string(),
        replace: "CV".to_string(),
    }];
    cfg.rejects.syllable_rejects = vec!["V".to_string()];
    let mut rng = RandomSource::from_seed(8);
    let words = run_generation(&cfg, &mut rng, 100).expect("generation should succeed");
    assert_eq!(words.len(), 2);
    for word in &words {
        assert_eq!(word.syllables, "C");
        assert_eq!(word.syllable_rewrite_history.len(), 1);
        assert_eq!(word.syllable_rewrite_history[0].1, "CV");
        assert!(word.syllable_rejects.is_empty());
        assert_eq!(word.graphemes, "ta");
    }
}

#[test]
fn rewrites_before_rejects_tests_the_rewritten_skeleton() {
    let mut cfg = config(
        vec![("C", 1, false, false)],
        vec![group("C", vec![("t", 1)]), group("V", vec![("a", 1)])],
        3,
        true,
    );
    cfg.settings.rewrites_before_rejects = true;
    cfg.rewrites.syllable_rewrites = vec![Rewrite {
        pattern: "C".to_string(),
        replace: "CV".to_string(),
    }];
    cfg.rejects.syllable_rejects = vec!["V".to_string()];
    let mut rng = RandomSource::from_seed(8);
    let words = run_generation(&cfg, &mut rng, 100).expect("mark-mode should succeed");
    assert_eq!(words.len(), 3);
    for word in &words {
        assert_eq!(word.syllable_rejects, vec!["V".to_string()]);
    }
}

#[test]
fn built_in_test_config_holds_the_expected_values() {
    let cfg = generate_test_config();
    assert_eq!(cfg.settings.output_file, "test");
    assert_eq!(cfg.settings.syllable_decay_rate, 200_000);
    assert_eq!(cfg.settings.max_syllables, 10);
    assert_eq!(cfg.settings.word_count, 10);
    assert!(!cfg.settings.rewrites_before_rejects);
    assert_eq!(cfg.graphemes.len(), 1);
    assert_eq!(cfg.graphemes[0].name, "c");
    assert_eq!(cfg.graphemes[0].graphemes[0].string, "e");
    assert_eq!(cfg.graphemes[0].graphemes[0].weight, 10);
    assert_eq!(cfg.syllables[0].string, "CV");
    assert_eq!(cfg.syllables[0].weight, 20);
    assert_eq!(cfg.rewrites.syllable_rewrites[0].pattern, "abc");
    assert_eq!(cfg.rewrites.syllable_rewrites[0].replace, "def");
    assert_eq!(cfg.rejects.grapheme_rejects, vec!["abc".to_string()]);
}

#[test]
fn grapheme_table_unwraps_into_the_registry() {
    let groups = vec![group("C", vec![("t", 1), ("k", 2)]), group("V", vec![("a", 3)])];
    let registry = transform_graphemes(&groups);
    assert_eq!(registry.len(), 2);
    assert_eq!(registry[0].0, "C");
    assert_eq!(registry[0].1.len(), 2);
    assert_eq!(registry[0].1[0].value, "t");
    assert_eq!(registry[0].1[1].value, "k");
    assert_eq!(registry[0].1[1].weight, 2);
    assert_eq!(registry[1].0, "V");
    assert_eq!(registry[1].1[0].value, "a");
}

#[test]
fn an_empty_syllable_string_realizes_to_an_empty_word() {
    let cfg = config(vec![("", 1, false, false)], Vec::new(), 2, true);
    let mut rng = RandomSource::from_seed(2);
    let words = run_generation(&cfg, &mut rng, 10).expect("generation should succeed");
    assert_eq!(words.len(), 2);
    for word in &words {
        assert_eq!(word.syllables, "");
        assert_eq!(word.graphemes, "");
    }
}

#[test]
fn a_full_decay_rate_stops_after_one_syllable() {
    let mut cfg = config(
        vec![("a", 1, false, false)],
        vec![group("a", vec![("x", 1)])],
        20,
        false,
    );
    cfg.settings.max_syllables = 5;
    cfg.settings.syllable_decay_rate = 1_000_000;
    let mut rng = RandomSource::from_seed(13);
    let words = run_generation(&cfg, &mut rng, 100).expect("generation should succeed");
    for word in &words {
        assert_eq!(word.syllable_count, 1);
        assert_eq!(word.syllables, "a");
    }
}

#[test]
fn replaying_a_seed_reproduces_the_batch() {
    let mut cfg = config(
        vec![("ab", 2, false, false), ("cd", 3, false, false)],
        vec![
            group("a", vec![("A", 1), ("o", 2)]),
            group("b", vec![("B", 1)]),
            group("c", vec![("C", 2), ("u", 1)]),
            group("d", vec![("D", 1)]),
        ],
        12,
        true,
    );
    cfg.settings.max_syllables = 3;
    cfg.settings.syllable_decay_rate = 400_000;
    let mut first_rng = RandomSource::from_seed(31);
    let first = run_generation(&cfg, &mut first_rng, 100).expect("generation should succeed");
    let mut second_rng = RandomSource::from_seed(31);
    let second = run_generation(&cfg, &mut second_rng, 100).expect("generation should succeed");
    assert_eq!(first.len(), second.len());
    for (a, b) in first.iter().zip(second.iter()) {
        assert_eq!(a.syllables, b.syllables);
        assert_eq!(a.graphemes, b.graphemes);
        assert_eq!(a.syllable_count, b.syllable_count);
    }
}

#[test]
fn syllable_counts_respect_the_configured_cap() {
    let mut cfg = config(
        vec![("a", 1, false, false)],
        vec![group("a", vec![("x", 1)])],
        40,
        true,
    );
    cfg.settings.max_syllables = 4;
    cfg.settings.syllable_decay_rate = 300_000;
    let mut rng = RandomSource::from_seed(77);
    let words = run_generation(&cfg, &mut rng, 100).expect("generation should succeed");
    assert_eq!(words.len(), 40);
    for word in &words {
        assert!(word.syllable_count >= 1);
        assert!(word.syllable_count <= 4);
        assert_eq!(word.syllables.len(), word.syllable_count);
        assert_eq!(word.graphemes.len(), word.syllable_count);
    }
}
