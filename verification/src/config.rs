use vstd::prelude::*;

verus! {

/// The denominator of every fixed-point probability in the generator: a rate
/// of `r` parts of `DECAY_ONE` stands for the fraction `r / DECAY_ONE`.
pub const DECAY_ONE: u32 = 1_000_000;

/// Switches of the report that a run writes; the generator itself only
/// carries them through.
pub struct OutputSettings {
    pub show_syllable_generation: bool,
    pub show_word_rewrites: bool,
    pub show_full_word_transforms: bool,
    pub only_mark_rejects: bool,
}

/// One concrete surface string realizing a symbol unit, with its weight.
pub struct Grapheme {
    pub string: String,
    pub weight: u32,
}

/// A named set of weighted graphemes; a skeleton symbol unit is realized by a
/// draw from the group registered under its name.
pub struct GraphemeGroup {
    pub name: String,
    pub graphemes: Vec<Grapheme>,
}

/// A syllable skeleton string with its weight and its position constraints.
pub struct Syllable {
    pub string: String,
    pub weight: u32,
    pub only_first_syllable: bool,
    pub only_last_syllable: bool,
}

/// An ordered pattern-to-literal-replacement rule.
pub struct Rewrite {
    pub pattern: String,
    pub replace: String,
}

/// The two ordered rewrite rule lists, one per pipeline stage.
pub struct RewriteGroup {
    pub syllable_rewrites: Vec<Rewrite>,
    pub grapheme_rewrites: Vec<Rewrite>,
}

/// The two ordered reject pattern lists, one per pipeline stage.
pub struct RejectGroup {
    pub syllable_rejects: Vec<String>,
    pub grapheme_rejects: Vec<String>,
}

/// Settings of one generation run.  `syllable_decay_rate` is a fixed-point
/// fraction of `DECAY_ONE`: the continuation probability of the syllable
/// count loop is multiplied by `1 - syllable_decay_rate / DECAY_ONE` after
/// each syllable.
pub struct GenerateSettings {
    pub output_file: String,
    pub syllable_decay_rate: u32,
    pub max_syllables: usize,
    pub word_count: usize,
    pub rewrites_before_rejects: bool,
    pub debug_use_static_wordlist: bool,
    pub output_settings: OutputSettings,
}

/// The immutable configuration aggregate of a run.
pub struct WordGeneratorConfig {
    pub settings: GenerateSettings,
    pub graphemes: Vec<GraphemeGroup>,
    pub syllables: Vec<Syllable>,
    pub rewrites: RewriteGroup,
    pub rejects: RejectGroup,
}

impl OutputSettings {
    pub fn duplicate(&self) -> (r: OutputSettings)
        ensures
            r == *self,
    {
        OutputSettings {
            show_syllable_generation: self.show_syllable_generation,
            show_word_rewrites: self.show_word_rewrites,
            show_full_word_transforms: self.show_full_word_transforms,
            only_mark_rejects: self.only_mark_rejects,
        }
    }
}

impl GenerateSettings {
    pub fn duplicate(&self) -> (r: GenerateSettings)
        ensures
            r == *self,
    {
        GenerateSettings {
            output_file: self.output_file.clone(),
            syllable_decay_rate: self.syllable_decay_rate,
            max_syllables: self.max_syllables,
            word_count: self.word_count,
            rewrites_before_rejects: self.rewrites_before_rejects,
            debug_use_static_wordlist: self.debug_use_static_wordlist,
            output_settings: self.output_settings.duplicate(),
        }
    }
}

impl Rewrite {
    pub fn duplicate(&self) -> (r: Rewrite)
        ensures
            r == *self,
    {
        Rewrite { pattern: self.pattern.clone(), replace: self.replace.clone() }
    }
}

fn duplicate_rewrites(v: &Vec<Rewrite>) -> (r: Vec<Rewrite>)
    ensures
        r@ == v@,
{
    let mut r: Vec<Rewrite> = Vec::new();
    let mut i: usize = 0;
    while i < v.len()
        invariant
            i <= v.len(),
            r@ == v@.take(i as int),
        decreases v.len() - i,
    {
        r.push(v[i].duplicate());
        proof {
            assert(r@ =~= v@.take(i as int + 1));
        }
        i = i + 1;
    }
    proof {
        assert(v@.take(v@.len() as int) =~= v@);
    }
    r
}

fn duplicate_strings(v: &Vec<String>) -> (r: Vec<String>)
    ensures
        r@ == v@,
{
    let mut r: Vec<String> = Vec::new();
    let mut i: usize = 0;
    while i < v.len()
        invariant
            i <= v.len(),
            r@ == v@.take(i as int),
        decreases v.len() - i,
    {
        r.push(v[i].clone());
        proof {
            assert(r@ =~= v@.take(i as int + 1));
        }
        i = i + 1;
    }
    proof {
        assert(v@.take(v@.len() as int) =~= v@);
    }
    r
}

impl RewriteGroup {
    pub fn duplicate(&self) -> (r: RewriteGroup)
        ensures
            r.syllable_rewrites@ == self.syllable_rewrites@,
            r.grapheme_rewrites@ == self.grapheme_rewrites@,
    {
        RewriteGroup {
            syllable_rewrites: duplicate_rewrites(&self.syllable_rewrites),
            grapheme_rewrites: duplicate_rewrites(&self.grapheme_rewrites),
        }
    }
}

impl RejectGroup {
    pub fn duplicate(&self) -> (r: RejectGroup)
        ensures
            r.syllable_rejects@ == self.syllable_rejects@,
            r.grapheme_rejects@ == self.grapheme_rejects@,
    {
        RejectGroup {
            syllable_rejects: duplicate_strings(&self.syllable_rejects),
            grapheme_rejects: duplicate_strings(&self.grapheme_rejects),
        }
    }
}

/// A small built-in configuration, handy for exercising the pipeline without
/// loading a document.
pub fn generate_test_config() -> (c: WordGeneratorConfig)
    ensures
        c.settings.output_file@ == "test"@,
        c.settings.syllable_decay_rate == 200000u32,
        c.settings.max_syllables == 10usize,
        c.settings.word_count == 10usize,
        !c.settings.rewrites_before_rejects,
        !c.settings.debug_use_static_wordlist,
        !c.settings.output_settings.show_syllable_generation,
        !c.settings.output_settings.show_word_rewrites,
        !c.settings.output_settings.show_full_word_transforms,
        !c.settings.output_settings.only_mark_rejects,
        c.graphemes@.len() == 1,
        c.graphemes@[0].name@ == "c"@,
        c.graphemes@[0].graphemes@.len() == 1,
        c.graphemes@[0].graphemes@[0].string@ == "e"@,
        c.graphemes@[0].graphemes@[0].weight == 10u32,
        c.syllables@.len() == 1,
        c.syllables@[0].string@ == "CV"@,
        c.syllables@[0].weight == 20u32,
        !c.syllables@[0].only_first_syllable,
        !c.syllables@[0].only_last_syllable,
        c.rewrites.syllable_rewrites@.len() == 1,
        c.rewrites.syllable_rewrites@[0].pattern@ == "abc"@,
        c.rewrites.syllable_rewrites@[0].replace@ == "def"@,
        c.rewrites.grapheme_rewrites@.len() == 1,
        c.rewrites.grapheme_rewrites@[0].pattern@ == "abc"@,
        c.rewrites.grapheme_rewrites@[0].replace@ == "def"@,
        c.rejects.syllable_rejects@.len() == 1,
        c.rejects.syllable_rejects@[0]@ == "abc"@,
        c.rejects.grapheme_rejects@.len() == 1,
        c.rejects.grapheme_rejects@[0]@ == "abc"@,
{
    WordGeneratorConfig {
        settings: GenerateSettings {
            output_file: "test".to_owned(),
            syllable_decay_rate: 200000,
            max_syllables: 10,
            word_count: 10,
            rewrites_before_rejects: false,
            debug_use_static_wordlist: false,
            output_settings: OutputSettings {
                show_syllable_generation: false,
                show_word_rewrites: false,
                show_full_word_transforms: false,
                only_mark_rejects: false,
            },
        },
        graphemes: vec![
            GraphemeGroup {
                name: "c".to_owned(),
                graphemes: vec![Grapheme { string: "e".to_owned(), weight: 10 }],
            },
        ],
        syllables: vec![
            Syllable {
                string: "CV".to_owned(),
                weight: 20,
                only_first_syllable: false,
                only_last_syllable: false,
            },
        ],
        rewrites: RewriteGroup {
            syllable_rewrites: vec![
                Rewrite { pattern: "abc".to_owned(), replace: "def".to_owned() },
            ],
            grapheme_rewrites: vec![
                Rewrite { pattern: "abc".to_owned(), replace: "def".to_owned() },
            ],
        },
        rejects: RejectGroup {
            syllable_rejects: vec!["abc".to_owned()],
            grapheme_rejects: vec!["abc".to_owned()],
        },
    }
}

} // verus!
