use wordgen::config::GenerateSettings;
use wordgen::config::OutputSettings;
use wordgen::config::RejectGroup;
use wordgen::config::Rewrite;
use wordgen::config::RewriteGroup;
use wordgen::errors::GenError;
use wordgen::patterns::apply_single_rewrite;
use wordgen::rng::RandomSource;
use wordgen::sampler::WeightedItem;
use wordgen::word::get_word_graphemes;
use wordgen::word::get_word_syllables;
use wordgen::word::syllable_element_to_random_grapheme;
use wordgen::word::Word;
use wordgen::word::WordFactory;

fn plain_settings() -> GenerateSettings {
    GenerateSettings {
        output_file: "out".to_string(),
        syllable_decay_rate: 0,
        max_syllables: 1,
        word_count: 1,
        rewrites_before_rejects: false,
        debug_use_static_wordlist: false,
        output_settings: OutputSettings {
            show_syllable_generation: false,
            show_word_rewrites: false,
            show_full_word_transforms: false,
            only_mark_rejects: false,
        },
    }
}

fn rewrite(pattern: &str, replace: &str) -> Rewrite {
    Rewrite { pattern: pattern.to_string(), replace: replace.to_string() }
}

fn engine_factory(syllable_rewrites: Vec<Rewrite>, syllable_rejects: Vec<String>) -> WordFactory {
    WordFactory {
        first_syllable_list: Vec::new(),
        last_syllable_list: Vec::new(),
        normal_syllable_list: Vec::new(),
        graphemes: Vec::new(),
        rewrites: RewriteGroup { syllable_rewrites, grapheme_rewrites: Vec::new() },
        rejects: RejectGroup { syllable_rejects, grapheme_rejects: Vec::new() },
        generate_settings: plain_settings(),
    }
}

#[test]
fn nonmatching_rule_list_leaves_word_unchanged() {
    let factory = engine_factory(vec![rewrite("z", "q")], Vec::new());
    let mut word = Word::empty();
    word.syllables = "abc".to_string();
    factory.rewrite_syllables(&mut word);
    assert_eq!(word.syllable_rewrite_history.len(), 0);
    assert_eq!(get_word_syllables(&word), "abc");
}

#[test]
fn rewrite_chain_applies_rules_in_order_onto_prior_results() {
    let factory = engine_factory(vec![rewrite("a", "b"), rewrite("b", "c")], Vec::new());
    let mut word = Word::empty();
    word.syllables = "a".to_string();
    factory.rewrite_syllables(&mut word);
    assert_eq!(word.syllable_rewrite_history.len(), 2);
    assert_eq!(word.syllable_rewrite_history[0].0.pattern, "a");
    assert_eq!(word.syllable_rewrite_history[0].0.replace, "b");
    assert_eq!(word.syllable_rewrite_history[0].1, "b");
    assert_eq!(word.syllable_rewrite_history[1].0.pattern, "b");
    assert_eq!(word.syllable_rewrite_history[1].1, "c");
    assert_eq!(get_word_syllables(&word), "c");
}

#[test]
fn skipped_rule_leaves_no_history_entry() {
    let factory = engine_factory(vec![rewrite("a", "b"), rewrite("z", "q")], Vec::new());
    let mut word = Word::empty();
    word.syllables = "a".to_string();
    factory.rewrite_syllables(&mut word);
    assert_eq!(word.syllable_rewrite_history.len(), 1);
    assert_eq!(get_word_syllables(&word), "b");
}

#[test]
fn reject_marking_records_every_matching_pattern() {
    let factory = engine_factory(Vec::new(), vec!["x".to_string(), "y".to_string()]);
    let mut word = Word::empty();
    word.syllables = "xy".to_string();
    factory.mark_syllable_rejects(&mut word);
    assert_eq!(word.syllable_rejects, vec!["x".to_string(), "y".to_string()]);
}

#[test]
fn reject_marking_skips_patterns_that_do_not_match() {
    let factory = engine_factory(Vec::new(), vec!["q".to_string(), "y".to_string()]);
    let mut word = Word::empty();
    word.syllables = "xy".to_string();
    factory.mark_syllable_rejects(&mut word);
    assert_eq!(word.syllable_rejects, vec!["y".to_string()]);
}

#[test]
fn single_rewrite_replaces_every_match_literally() {
    let result = apply_single_rewrite(
        &"ab".to_string(),
        &"X".to_string(),
        &"zabab".to_string(),
    );
    assert_eq!(result, Some("zXX".to_string()));
}

#[test]
fn single_rewrite_reports_no_match() {
    let result = apply_single_rewrite(&"q".to_string(), &"X".to_string(), &"abc".to_string());
    assert_eq!(result, None);
}

#[test]
fn replacement_is_literal_without_capture_expansion() {
    let result = apply_single_rewrite(
        &"(a)b".to_string(),
        &"$1".to_string(),
        &"ab".to_string(),
    );
    assert_eq!(result, Some("$1".to_string()));
}

#[test]
fn effective_strings_follow_the_last_history_entry() {
    let mut word = Word::empty();
    word.syllables = "raw".to_string();
    word.graphemes = "graw".to_string();
    assert_eq!(get_word_syllables(&word), "raw");
    assert_eq!(get_word_graphemes(&word), "graw");
    word.syllable_rewrite_history.push((rewrite("a", "b"), "rbw".to_string()));
    word.grapheme_rewrite_history.push((rewrite("a", "b"), "grbw".to_string()));
    word.syllable_rewrite_history.push((rewrite("w", "v"), "rbv".to_string()));
    assert_eq!(get_word_syllables(&word), "rbv");
    assert_eq!(get_word_graphemes(&word), "grbw");
}

#[test]
fn grapheme_lookup_prefers_the_last_group_of_a_name() {
    let groups: Vec<(String, Vec<WeightedItem>)> = vec![
        ("C".to_string(), vec![WeightedItem { value: "t".to_string(), weight: 1 }]),
        ("C".to_string(), vec![WeightedItem { value: "u".to_string(), weight: 1 }]),
    ];
    let mut rng = RandomSource::from_seed(7);
    let drawn = syllable_element_to_random_grapheme(&mut rng, &groups, &"C".to_string());
    assert_eq!(drawn, Ok("u".to_string()));
}

#[test]
fn grapheme_lookup_without_a_group_is_fatal() {
    let groups: Vec<(String, Vec<WeightedItem>)> = vec![
        ("C".to_string(), vec![WeightedItem { value: "t".to_string(), weight: 1 }]),
    ];
    let mut rng = RandomSource::from_seed(7);
    let drawn = syllable_element_to_random_grapheme(&mut rng, &groups, &"Z".to_string());
    assert_eq!(drawn, Err(GenError::UnknownGraphemeGroup("Z".to_string())));
}
