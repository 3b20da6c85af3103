use vstd::prelude::*;

use crate::config::Grapheme;
use crate::config::GraphemeGroup;
use crate::config::Rewrite;
use crate::config::Syllable;
use crate::config::WordGeneratorConfig;
use crate::errors::GenError;
use crate::errors::PoolKind;
use crate::patterns::pattern_compiles;
use crate::patterns::pattern_ok;
use crate::rng::RandomSource;
use crate::sampler::sum_weights;
use crate::sampler::total_weight;
use crate::sampler::valid_draw;
use crate::sampler::WeightedItem;
use crate::segment::split_units;
use crate::segment::units_of;
use crate::word::all_units_realizable;
use crate::word::chain_of;
use crate::word::effective_of;
use crate::word::group_index;
use crate::word::history_view;
use crate::word::is_realization;
use crate::word::is_skeleton;
use crate::word::lookup_group;
use crate::word::matched_rejects;
use crate::word::realization_error_at;
use crate::word::reject_patterns_ok;
use crate::word::rewrite_patterns_ok;
use crate::word::unit_realizable;
use crate::word::Word;
use crate::word::WordFactory;

verus! {

/// The weighted candidate that stands for a syllable symbol in a pool.
pub open spec fn weighted_of(s: Syllable) -> WeightedItem {
    WeightedItem { value: s.string, weight: s.weight }
}

/// Which pools a symbol joins: a symbol with neither position flag joins all
/// three; `only_first_syllable` joins the first pool only, `only_last_syllable`
/// the last pool only; a symbol with both flags joins first and last but
/// never the normal pool.
pub open spec fn in_pool(kind: PoolKind, s: Syllable) -> bool {
    match kind {
        PoolKind::First => (!s.only_first_syllable && !s.only_last_syllable)
            || s.only_first_syllable,
        PoolKind::Normal => !s.only_first_syllable && !s.only_last_syllable,
        PoolKind::Last => (!s.only_first_syllable && !s.only_last_syllable)
            || s.only_last_syllable,
    }
}

/// The candidates of the symbols that belong to a pool, in table order.
pub open spec fn pool_of(kind: PoolKind, symbols: Seq<Syllable>) -> Seq<WeightedItem>
    decreases symbols.len(),
{
    if symbols.len() == 0 {
        Seq::empty()
    } else if in_pool(kind, symbols[0]) {
        seq![weighted_of(symbols[0])] + pool_of(kind, symbols.skip(1))
    } else {
        pool_of(kind, symbols.skip(1))
    }
}

proof fn lemma_pool_of_snoc(kind: PoolKind, symbols: Seq<Syllable>, s: Syllable)
    ensures
        in_pool(kind, s) ==> pool_of(kind, symbols.push(s)) == pool_of(kind, symbols).push(
            weighted_of(s),
        ),
        !in_pool(kind, s) ==> pool_of(kind, symbols.push(s)) == pool_of(kind, symbols),
    decreases symbols.len(),
{
    if symbols.len() == 0 {
        assert(symbols.push(s)[0] == s);
        assert(symbols.push(s).skip(1) =~= Seq::<Syllable>::empty());
        assert(pool_of(kind, Seq::<Syllable>::empty()) == Seq::<WeightedItem>::empty());
        if in_pool(kind, s) {
            assert(pool_of(kind, symbols.push(s)) =~= pool_of(kind, symbols).push(weighted_of(s)));
        }
    } else {
        assert(symbols.push(s)[0] == symbols[0]);
        assert(symbols.push(s).skip(1) =~= symbols.skip(1).push(s));
        lemma_pool_of_snoc(kind, symbols.skip(1), s);
        if in_pool(kind, symbols[0]) {
            let head = seq![weighted_of(symbols[0])];
            if in_pool(kind, s) {
                assert(head + pool_of(kind, symbols.skip(1)).push(weighted_of(s)) =~= (head
                    + pool_of(kind, symbols.skip(1))).push(weighted_of(s)));
            }
        }
    }
}

/// Pool composition: a candidate stands in a pool exactly when some symbol
/// of the table carries its string and weight and belongs to that pool.  So
/// a symbol flagged `only_first_syllable` and not `only_last_syllable`
/// appears in the first pool, and the last pool cannot contain its candidate
/// unless another entry with the same string and weight is itself admitted
/// to the last pool; a symbol with neither flag appears in all three pools.
pub proof fn lemma_pool_membership(kind: PoolKind, symbols: Seq<Syllable>, v: WeightedItem)
    ensures
        pool_of(kind, symbols).contains(v) <==> exists|j: int|
            0 <= j < symbols.len() && in_pool(kind, #[trigger] symbols[j]) && v == weighted_of(
                symbols[j],
            ),
    decreases symbols.len(),
{
    if symbols.len() == 0 {
    } else {
        let tail = symbols.skip(1);
        lemma_pool_membership(kind, tail, v);
        let pool = pool_of(kind, symbols);
        let tpool = pool_of(kind, tail);
        if pool.contains(v) {
            let i = choose|i: int| 0 <= i < pool.len() && pool[i] == v;
            if in_pool(kind, symbols[0]) && i == 0 {
                assert(in_pool(kind, symbols[0]) && v == weighted_of(symbols[0]));
            } else {
                let off: int = if in_pool(kind, symbols[0]) {
                    1
                } else {
                    0
                };
                assert(tpool[i - off] == v);
                assert(tpool.contains(v));
                let j = choose|j: int|
                    0 <= j < tail.len() && in_pool(kind, #[trigger] tail[j]) && v == weighted_of(
                        tail[j],
                    );
                assert(symbols[j + 1] == tail[j]);
                assert(in_pool(kind, symbols[j + 1]) && v == weighted_of(symbols[j + 1]));
            }
        }
        if exists|j: int|
            0 <= j < symbols.len() && in_pool(kind, #[trigger] symbols[j]) && v == weighted_of(
                symbols[j],
            ) {
            let j = choose|j: int|
                0 <= j < symbols.len() && in_pool(kind, #[trigger] symbols[j]) && v == weighted_of(
                    symbols[j],
                );
            if j == 0 {
                assert(pool[0] == v);
            } else {
                assert(tail[j - 1] == symbols[j]);
                assert(in_pool(kind, tail[j - 1]) && v == weighted_of(tail[j - 1]));
                assert(tpool.contains(v));
                let i = choose|i: int| 0 <= i < tpool.len() && tpool[i] == v;
                let off: int = if in_pool(kind, symbols[0]) {
                    1
                } else {
                    0
                };
                assert(pool[i + off] == v);
            }
            assert(pool.contains(v));
        }
    }
}

/// The weighted candidates of one grapheme group.
pub open spec fn group_items(g: GraphemeGroup) -> Seq<WeightedItem> {
    g.graphemes@.map_values(|x: Grapheme| WeightedItem { value: x.string, weight: x.weight })
}

/// Unwraps the grapheme group table into the registry the realizer reads:
/// one `(name, weighted candidates)` entry per group, in table order.
pub fn transform_graphemes(graphemes: &Vec<GraphemeGroup>) -> (r: Vec<(String, Vec<WeightedItem>)>)
    ensures
        r@.len() == graphemes@.len(),
        forall|i: int|
            0 <= i < r@.len() ==> (#[trigger] r@[i]).0 == graphemes@[i].name && r@[i].1@
                == group_items(graphemes@[i]),
{
    let mut r: Vec<(String, Vec<WeightedItem>)> = Vec::new();
    let mut i: usize = 0;
    while i < graphemes.len()
        invariant
            i <= graphemes.len(),
            r@.len() == i,
            forall|k: int|
                0 <= k < i ==> (#[trigger] r@[k]).0 == graphemes@[k].name && r@[k].1@
                    == group_items(graphemes@[k]),
        decreases graphemes.len() - i,
    {
        let group = &graphemes[i];
        let mut items: Vec<WeightedItem> = Vec::new();
        let mut j: usize = 0;
        while j < group.graphemes.len()
            invariant
                j <= group.graphemes.len(),
                items@.len() == j,
                forall|k: int|
                    0 <= k < j ==> #[trigger] items@[k] == (WeightedItem {
                        value: group.graphemes@[k].string,
                        weight: group.graphemes@[k].weight,
                    }),
        decreases group.graphemes.len() - j,
        {
            let g = &group.graphemes[j];
            items.push(WeightedItem { value: g.string.clone(), weight: g.weight });
            j = j + 1;
        }
        proof {
            assert(items@ =~= group_items(graphemes@[i as int]));
        }
        r.push((group.name.clone(), items));
        i = i + 1;
    }
    r
}

impl WordFactory {
    /// Builds the per-run machinery from a configuration: partitions the
    /// syllable table into the three position pools and unwraps the grapheme
    /// group table, carrying the rule lists and settings along.
    pub fn from_config(config: &WordGeneratorConfig) -> (f: WordFactory)
        ensures
            f.first_syllable_list@ == pool_of(PoolKind::First, config.syllables@),
            f.normal_syllable_list@ == pool_of(PoolKind::Normal, config.syllables@),
            f.last_syllable_list@ == pool_of(PoolKind::Last, config.syllables@),
            f.graphemes@.len() == config.graphemes@.len(),
            forall|i: int|
                0 <= i < f.graphemes@.len() ==> (#[trigger] f.graphemes@[i]).0
                    == config.graphemes@[i].name && f.graphemes@[i].1@ == group_items(
                    config.graphemes@[i],
                ),
            f.rewrites.syllable_rewrites@ == config.rewrites.syllable_rewrites@,
            f.rewrites.grapheme_rewrites@ == config.rewrites.grapheme_rewrites@,
            f.rejects.syllable_rejects@ == config.rejects.syllable_rejects@,
            f.rejects.grapheme_rejects@ == config.rejects.grapheme_rejects@,
            f.generate_settings == config.settings,
    {
        let mut first_syllable_list: Vec<WeightedItem> = Vec::new();
        let mut last_syllable_list: Vec<WeightedItem> = Vec::new();
        let mut normal_syllable_list: Vec<WeightedItem> = Vec::new();
        let mut i: usize = 0;
        while i < config.syllables.len()
            invariant
                i <= config.syllables.len(),
                first_syllable_list@ == pool_of(PoolKind::First, config.syllables@.take(i as int)),
                normal_syllable_list@ == pool_of(
                    PoolKind::Normal,
                    config.syllables@.take(i as int),
                ),
                last_syllable_list@ == pool_of(PoolKind::Last, config.syllables@.take(i as int)),
            decreases config.syllables.len() - i,
        {
            let syllable = &config.syllables[i];
            proof {
                assert(config.syllables@.take(i as int).push(config.syllables@[i as int])
                    =~= config.syllables@.take(i as int + 1));
                lemma_pool_of_snoc(
                    PoolKind::First,
                    config.syllables@.take(i as int),
                    config.syllables@[i as int],
                );
                lemma_pool_of_snoc(
                    PoolKind::Normal,
                    config.syllables@.take(i as int),
                    config.syllables@[i as int],
                );
                lemma_pool_of_snoc(
                    PoolKind::Last,
                    config.syllables@.take(i as int),
                    config.syllables@[i as int],
                );
            }
            if !(syllable.only_first_syllable || syllable.only_last_syllable) {
                normal_syllable_list.push(
                    WeightedItem { value: syllable.string.clone(), weight: syllable.weight },
                );
                first_syllable_list.push(
                    WeightedItem { value: syllable.string.clone(), weight: syllable.weight },
                );
                last_syllable_list.push(
                    WeightedItem { value: syllable.string.clone(), weight: syllable.weight },
                );
            }
            if syllable.only_first_syllable {
                first_syllable_list.push(
                    WeightedItem { value: syllable.string.clone(), weight: syllable.weight },
                );
            }
            if syllable.only_last_syllable {
                last_syllable_list.push(
                    WeightedItem { value: syllable.string.clone(), weight: syllable.weight },
                );
            }
            i = i + 1;
        }
        proof {
            assert(config.syllables@.take(config.syllables@.len() as int) =~= config.syllables@);
        }
        WordFactory {
            first_syllable_list,
            last_syllable_list,
            normal_syllable_list,
            graphemes: transform_graphemes(&config.graphemes),
            rewrites: config.rewrites.duplicate(),
            rejects: config.rejects.duplicate(),
            generate_settings: config.settings.duplicate(),
        }
    }
}

fn check_rewrite_patterns(rules: &Vec<Rewrite>) -> (r: Option<String>)
    ensures
        r is None <==> rewrite_patterns_ok(rules@),
        r matches Some(p) ==> !pattern_ok(p@) && exists|i: int|
            0 <= i < rules@.len() && (#[trigger] rules@[i]).pattern@ == p@,
{
    let mut i: usize = 0;
    while i < rules.len()
        invariant
            i <= rules.len(),
            forall|j: int| 0 <= j < i ==> pattern_ok(#[trigger] rules@[j].pattern@),
        decreases rules.len() - i,
    {
        if !pattern_compiles(rules[i].pattern.as_str()) {
            proof {
                assert((rules@[i as int]).pattern@ == rules@[i as int].pattern@);
            }
            return Some(rules[i].pattern.clone());
        }
        i = i + 1;
    }
    None
}

fn check_reject_patterns(patterns: &Vec<String>) -> (r: Option<String>)
    ensures
        r is None <==> reject_patterns_ok(patterns@),
        r matches Some(p) ==> !pattern_ok(p@) && exists|i: int|
            0 <= i < patterns@.len() && (#[trigger] patterns@[i])@ == p@,
{
    let mut i: usize = 0;
    while i < patterns.len()
        invariant
            i <= patterns.len(),
            forall|j: int| 0 <= j < i ==> pattern_ok(#[trigger] patterns@[j]@),
        decreases patterns.len() - i,
    {
        if !pattern_compiles(patterns[i].as_str()) {
            return Some(patterns[i].clone());
        }
        i = i + 1;
    }
    None
}

fn check_pools(f: &WordFactory) -> (r: Option<PoolKind>)
    ensures
        r is None <==> f.pools_wf(),
        r == Some(PoolKind::First) <==> !(total_weight(f.first_syllable_list@) > 0),
        r == Some(PoolKind::Last) <==> (total_weight(f.first_syllable_list@) > 0 && f.max_count()
            >= 2 && !(total_weight(f.last_syllable_list@) > 0)),
        r == Some(PoolKind::Normal) <==> (total_weight(f.first_syllable_list@) > 0 && (
        f.max_count() >= 2 ==> total_weight(f.last_syllable_list@) > 0) && f.max_count() >= 3 && !(
        total_weight(f.normal_syllable_list@) > 0)),
{
    let tf = sum_weights(&f.first_syllable_list);
    if tf == 0 {
        return Some(PoolKind::First);
    }
    let mc: usize = if f.generate_settings.max_syllables < 1 {
        1
    } else {
        f.generate_settings.max_syllables
    };
    if mc >= 2 {
        let tl = sum_weights(&f.last_syllable_list);
        if tl == 0 {
            return Some(PoolKind::Last);
        }
    }
    if mc >= 3 {
        let tn = sum_weights(&f.normal_syllable_list);
        if tn == 0 {
            return Some(PoolKind::Normal);
        }
    }
    None
}

/// Every symbol unit that any syllable skeleton of the table produces has a
/// usable grapheme group in the registry.
pub open spec fn registry_covers(
    groups_v: Seq<(String, Vec<WeightedItem>)>,
    symbols: Seq<Syllable>,
) -> bool {
    forall|i: int|
        0 <= i < symbols.len() ==> all_units_realizable(
            groups_v,
            units_of((#[trigger] symbols[i]).string@),
        )
}

/// The first symbol unit of the table, in symbol then unit order, that the
/// registry cannot realize, with the error that reports it: a missing group
/// names the unit, a group with no positive weight reports an empty
/// candidate set.
pub open spec fn bad_unit_at(
    groups_v: Seq<(String, Vec<WeightedItem>)>,
    symbols: Seq<Syllable>,
    i: int,
    k: int,
    e: GenError,
) -> bool {
    &&& 0 <= i < symbols.len()
    &&& 0 <= k < units_of(symbols[i].string@).len()
    &&& !unit_realizable(groups_v, units_of(symbols[i].string@)[k])
    &&& forall|a: int|
        0 <= a < i ==> all_units_realizable(groups_v, units_of((#[trigger] symbols[a]).string@))
    &&& forall|b: int|
        0 <= b < k ==> unit_realizable(groups_v, #[trigger] units_of(symbols[i].string@)[b])
    &&& match group_index(groups_v, units_of(symbols[i].string@)[k]) {
        None => e matches GenError::UnknownGraphemeGroup(u) && u@ == units_of(
            symbols[i].string@,
        )[k],
        Some(_) => e == GenError::EmptyCandidateSet,
    }
}

fn check_groups(groups: &Vec<(String, Vec<WeightedItem>)>, syllables: &Vec<Syllable>) -> (r: Option<
    GenError,
>)
    ensures
        r is None <==> registry_covers(groups@, syllables@),
        r matches Some(e) ==> (e matches GenError::UnknownGraphemeGroup(_) || e
            == GenError::EmptyCandidateSet),
        r matches Some(e) ==> exists|i: int, k: int| bad_unit_at(groups@, syllables@, i, k, e),
{
    let mut i: usize = 0;
    while i < syllables.len()
        invariant
            i <= syllables.len(),
            forall|a: int|
                0 <= a < i ==> all_units_realizable(
                    groups@,
                    units_of((#[trigger] syllables@[a]).string@),
                ),
        decreases syllables.len() - i,
    {
        let units = split_units(syllables[i].string.as_str());
        let ghost units_v = units_of(syllables@[i as int].string@);
        let mut k: usize = 0;
        while k < units.len()
            invariant
                k <= units.len(),
                0 <= i < syllables@.len(),
                units_v == units_of(syllables@[i as int].string@),
                units@.map_values(|u: String| u@) == units_v,
                units_v.len() == units@.len(),
                forall|b: int| 0 <= b < k ==> unit_realizable(groups@, #[trigger] units_v[b]),
                forall|a: int|
                    0 <= a < i ==> all_units_realizable(
                        groups@,
                        units_of((#[trigger] syllables@[a]).string@),
                    ),
            decreases units.len() - k,
        {
            let unit = &units[k];
            proof {
                assert(unit@ == units_v[k as int]);
            }
            match lookup_group(groups, unit) {
                Some(j) => {
                    let t = sum_weights(&groups[j].1);
                    if t == 0 {
                        proof {
                            assert(!unit_realizable(groups@, units_v[k as int]));
                            assert forall|b: int| 0 <= b < k implies unit_realizable(
                                groups@,
                                #[trigger] units_of(syllables@[i as int].string@)[b],
                            ) by {
                                assert(unit_realizable(groups@, units_v[b]));
                            }
                            assert(bad_unit_at(
                                groups@,
                                syllables@,
                                i as int,
                                k as int,
                                GenError::EmptyCandidateSet,
                            ));
                            assert(!all_units_realizable(groups@, units_v));
                        }
                        return Some(GenError::EmptyCandidateSet);
                    }
                },
                None => {
                    let e = GenError::UnknownGraphemeGroup(unit.clone());
                    let ghost ge = e;
                    proof {
                        assert(!unit_realizable(groups@, units_v[k as int]));
                        assert forall|b: int| 0 <= b < k implies unit_realizable(
                            groups@,
                            #[trigger] units_of(syllables@[i as int].string@)[b],
                        ) by {
                            assert(unit_realizable(groups@, units_v[b]));
                        }
                        assert(bad_unit_at(groups@, syllables@, i as int, k as int, ge));
                        assert(!all_units_realizable(groups@, units_v));
                    }
                    return Some(e);
                },
            }
            k = k + 1;
        }
        i = i + 1;
    }
    None
}

/// A word that one full pass of the pipeline produced under a factory: the
/// skeleton is assembled from the pools to its syllable count; each rewrite
/// history is the chain of its rule list over the raw string; each reject
/// list holds exactly the patterns that matched the string they were checked
/// against, which the rewrite-before-reject switch decides; and the grapheme
/// string realizes the effective skeleton.
pub open spec fn complete_word(f: WordFactory, w: Word) -> bool {
    &&& 1 <= w.syllable_count
    &&& w.syllable_count <= f.max_count()
    &&& is_skeleton(
        f.first_syllable_list@,
        f.normal_syllable_list@,
        f.last_syllable_list@,
        w.syllable_count as int,
        w.syllables@,
    )
    &&& history_view(w.syllable_rewrite_history@) == chain_of(
        w.syllables@,
        f.rewrites.syllable_rewrites@,
    )
    &&& w.syllable_rejects@ == matched_rejects(
        f.rejects.syllable_rejects@,
        if f.generate_settings.rewrites_before_rejects {
            effective_of(w.syllables@, f.rewrites.syllable_rewrites@)
        } else {
            w.syllables@
        },
    )
    &&& is_realization(f.graphemes@, units_of(w.effective_skeleton()), w.graphemes@)
    &&& history_view(w.grapheme_rewrite_history@) == chain_of(
        w.graphemes@,
        f.rewrites.grapheme_rewrites@,
    )
    &&& w.grapheme_rejects@ == matched_rejects(
        f.rejects.grapheme_rejects@,
        if f.generate_settings.rewrites_before_rejects {
            effective_of(w.graphemes@, f.rewrites.grapheme_rewrites@)
        } else {
            w.graphemes@
        },
    )
}

/// Every skeleton the pools can assemble, after the syllable rewrite chain,
/// splits into units that the grapheme registry can realize.  On such a
/// factory no random outcome can make a word fail.
pub open spec fn all_skeletons_realizable(f: WordFactory) -> bool {
    forall|count: int, s: Seq<char>|
        #![trigger is_skeleton(f.first_syllable_list@, f.normal_syllable_list@, f.last_syllable_list@, count, s)]
        (1 <= count <= f.max_count() && is_skeleton(
            f.first_syllable_list@,
            f.normal_syllable_list@,
            f.last_syllable_list@,
            count,
            s,
        )) ==> all_units_realizable(
            f.graphemes@,
            units_of(effective_of(s, f.rewrites.syllable_rewrites@)),
        )
}

/// No word the pipeline can complete under the factory carries a reject: the
/// reject patterns cannot match any outcome.
pub open spec fn no_outcome_rejected(f: WordFactory) -> bool {
    forall|w: Word|
        #[trigger] complete_word(f, w) ==> w.syllable_rejects@.len() == 0
            && w.grapheme_rejects@.len() == 0
}

/// One pass of the per-word state machine: skeleton generation, then
/// skeleton rewrite and reject in the configured order, then grapheme
/// realization against the effective skeleton, then grapheme rewrite and
/// reject in the same order.  A fatal realization error aborts the word; on
/// a factory whose every skeleton is realizable there is no such error and
/// success is certain.
pub fn generate_word(factory: &WordFactory, rng: &mut RandomSource) -> (r: Result<Word, GenError>)
    requires
        factory.wf(),
    ensures
        r matches Ok(w) ==> complete_word(*factory, w),
        r matches Err(e) ==> (e matches GenError::UnknownGraphemeGroup(_) || e
            == GenError::EmptyCandidateSet),
        all_skeletons_realizable(*factory) ==> r is Ok,
{
    let mut word = Word::empty();
    factory.generate_syllables(rng, &mut word);
    proof {
        assert(word.effective_skeleton() == word.syllables@);
    }
    if factory.generate_settings.rewrites_before_rejects {
        factory.rewrite_syllables(&mut word);
        proof {
            assert(history_view(word.syllable_rewrite_history@) =~= chain_of(
                word.syllables@,
                factory.rewrites.syllable_rewrites@,
            ));
        }
        factory.mark_syllable_rejects(&mut word);
        proof {
            assert(word.syllable_rejects@ =~= matched_rejects(
                factory.rejects.syllable_rejects@,
                effective_of(word.syllables@, factory.rewrites.syllable_rewrites@),
            ));
        }
    } else {
        factory.mark_syllable_rejects(&mut word);
        proof {
            assert(word.syllable_rejects@ =~= matched_rejects(
                factory.rejects.syllable_rejects@,
                word.syllables@,
            ));
        }
        factory.rewrite_syllables(&mut word);
        proof {
            assert(history_view(word.syllable_rewrite_history@) =~= chain_of(
                word.syllables@,
                factory.rewrites.syllable_rewrites@,
            ));
        }
    }
    match factory.generate_graphemes(rng, &mut word) {
        Ok(_) => {},
        Err(e) => {
            proof {
                let k = choose|k: int|
                    realization_error_at(
                        factory.graphemes@,
                        units_of(word.effective_skeleton()),
                        k,
                        e,
                    );
                assert(realization_error_at(
                    factory.graphemes@,
                    units_of(word.effective_skeleton()),
                    k,
                    e,
                ));
                assert(is_skeleton(
                    factory.first_syllable_list@,
                    factory.normal_syllable_list@,
                    factory.last_syllable_list@,
                    word.syllable_count as int,
                    word.syllables@,
                ));
                assert(word.effective_skeleton() == effective_of(
                    word.syllables@,
                    factory.rewrites.syllable_rewrites@,
                ));
                assert(!all_units_realizable(
                    factory.graphemes@,
                    units_of(word.effective_skeleton()),
                ));
                assert(!all_skeletons_realizable(*factory));
            }
            return Err(e);
        },
    }
    proof {
        assert(word.effective_graphemes() == word.graphemes@);
    }
    if factory.generate_settings.rewrites_before_rejects {
        factory.rewrite_graphemes(&mut word);
        proof {
            assert(history_view(word.grapheme_rewrite_history@) =~= chain_of(
                word.graphemes@,
                factory.rewrites.grapheme_rewrites@,
            ));
        }
        factory.mark_grapheme_rejects(&mut word);
        proof {
            assert(word.grapheme_rejects@ =~= matched_rejects(
                factory.rejects.grapheme_rejects@,
                effective_of(word.graphemes@, factory.rewrites.grapheme_rewrites@),
            ));
        }
    } else {
        factory.mark_grapheme_rejects(&mut word);
        proof {
            assert(word.grapheme_rejects@ =~= matched_rejects(
                factory.rejects.grapheme_rejects@,
                word.graphemes@,
            ));
        }
        factory.rewrite_graphemes(&mut word);
        proof {
            assert(history_view(word.grapheme_rewrite_history@) =~= chain_of(
                word.graphemes@,
                factory.rewrites.grapheme_rewrites@,
            ));
        }
    }
    Ok(word)
}

/// Accumulates a batch.  In mark-mode exactly `word_count` words are
/// generated and all are returned, rejected or not.  In drop-mode words with
/// any recorded reject are discarded and generation goes on until
/// `word_count` accepted words exist, or until `attempt_cap` words have been
/// generated in all, which reports exhaustion instead of looping forever.
pub fn generate_word_list(
    factory: &WordFactory,
    rng: &mut RandomSource,
    attempt_cap: usize,
) -> (r: Result<Vec<Word>, GenError>)
    requires
        factory.wf(),
    ensures
        r matches Ok(words) ==> ({
            &&& words@.len() == factory.generate_settings.word_count
            &&& forall|i: int|
                0 <= i < words@.len() ==> complete_word(*factory, #[trigger] words@[i])
            &&& !factory.generate_settings.output_settings.only_mark_rejects ==> forall|i: int|
                0 <= i < words@.len() ==> (#[trigger] words@[i]).syllable_rejects@.len() == 0
                    && words@[i].grapheme_rejects@.len() == 0
        }),
        r matches Err(e) ==> ({
            ||| (e == GenError::GenerationExhausted
                && !factory.generate_settings.output_settings.only_mark_rejects)
            ||| e matches GenError::UnknownGraphemeGroup(_)
            ||| e == GenError::EmptyCandidateSet
        }),
        (all_skeletons_realizable(*factory)
            && factory.generate_settings.output_settings.only_mark_rejects) ==> r is Ok,
        (all_skeletons_realizable(*factory) && no_outcome_rejected(*factory) && attempt_cap
            >= factory.generate_settings.word_count
            && !factory.generate_settings.output_settings.only_mark_rejects) ==> r is Ok,
{
    let target = factory.generate_settings.word_count;
    let mut words: Vec<Word> = Vec::new();
    if factory.generate_settings.output_settings.only_mark_rejects {
        while words.len() < target
            invariant
                factory.wf(),
                target == factory.generate_settings.word_count,
                words@.len() <= target,
                forall|i: int|
                    0 <= i < words@.len() ==> complete_word(*factory, #[trigger] words@[i]),
            decreases target - words@.len(),
        {
            match generate_word(factory, rng) {
                Ok(w) => {
                    words.push(w);
                },
                Err(e) => {
                    return Err(e);
                },
            }
        }
        Ok(words)
    } else {
        let mut attempts: usize = 0;
        while words.len() < target && attempts < attempt_cap
            invariant
                factory.wf(),
                target == factory.generate_settings.word_count,
                words@.len() <= target,
                attempts <= attempt_cap,
                forall|i: int|
                    0 <= i < words@.len() ==> complete_word(*factory, #[trigger] words@[i]),
                forall|i: int|
                    0 <= i < words@.len() ==> (#[trigger] words@[i]).syllable_rejects@.len() == 0
                        && words@[i].grapheme_rejects@.len() == 0,
                (all_skeletons_realizable(*factory) && no_outcome_rejected(*factory))
                    ==> words@.len() == attempts,
            decreases attempt_cap - attempts,
        {
            attempts = attempts + 1;
            match generate_word(factory, rng) {
                Ok(w) => {
                    proof {
                        assert(complete_word(*factory, w));
                    }
                    if w.syllable_rejects.len() == 0 && w.grapheme_rejects.len() == 0 {
                        words.push(w);
                    }
                },
                Err(e) => {
                    return Err(e);
                },
            }
        }
        if words.len() == target {
            Ok(words)
        } else {
            Err(GenError::GenerationExhausted)
        }
    }
}

/// The syllable cap of a configuration, floored at one.
pub open spec fn config_max_count(c: WordGeneratorConfig) -> int {
    if c.settings.max_syllables < 1 {
        1
    } else {
        c.settings.max_syllables as int
    }
}

/// Every rewrite and reject pattern of the configuration compiles.
pub open spec fn config_patterns_wf(c: WordGeneratorConfig) -> bool {
    &&& rewrite_patterns_ok(c.rewrites.syllable_rewrites@)
    &&& rewrite_patterns_ok(c.rewrites.grapheme_rewrites@)
    &&& reject_patterns_ok(c.rejects.syllable_rejects@)
    &&& reject_patterns_ok(c.rejects.grapheme_rejects@)
}

/// Every pool that a draw may need under the configuration is usable.
pub open spec fn config_pools_wf(c: WordGeneratorConfig) -> bool {
    &&& total_weight(pool_of(PoolKind::First, c.syllables@)) > 0
    &&& config_max_count(c) >= 2 ==> total_weight(pool_of(PoolKind::Last, c.syllables@)) > 0
    &&& config_max_count(c) >= 3 ==> total_weight(pool_of(PoolKind::Normal, c.syllables@)) > 0
}

/// The group of the table registered under a name; the last group of that
/// name wins.
pub open spec fn config_group_index(groups: Seq<GraphemeGroup>, name: Seq<char>) -> Option<int>
    decreases groups.len(),
{
    if groups.len() == 0 {
        None
    } else if groups.last().name@ == name {
        Some((groups.len() - 1) as int)
    } else {
        config_group_index(groups.take(groups.len() - 1), name)
    }
}

pub open spec fn config_unit_realizable(groups: Seq<GraphemeGroup>, unit: Seq<char>) -> bool {
    config_group_index(groups, unit) matches Some(i) && total_weight(group_items(groups[i])) > 0
}

/// Every symbol unit that any syllable skeleton of the configuration
/// produces has a usable grapheme group.
pub open spec fn config_groups_wf(c: WordGeneratorConfig) -> bool {
    forall|i: int|
        0 <= i < c.syllables@.len() ==> (forall|k: int|
            0 <= k < units_of((#[trigger] c.syllables@[i]).string@).len()
                ==> config_unit_realizable(
                c.graphemes@,
                #[trigger] units_of(c.syllables@[i].string@)[k],
            ))
}

/// Some rule list of the configuration holds a pattern with this text.
pub open spec fn config_has_pattern(c: WordGeneratorConfig, p: Seq<char>) -> bool {
    ||| exists|i: int|
        0 <= i < c.rewrites.syllable_rewrites@.len() && (
        #[trigger] c.rewrites.syllable_rewrites@[i]).pattern@ == p
    ||| exists|i: int|
        0 <= i < c.rewrites.grapheme_rewrites@.len() && (
        #[trigger] c.rewrites.grapheme_rewrites@[i]).pattern@ == p
    ||| exists|i: int|
        0 <= i < c.rejects.syllable_rejects@.len() && (#[trigger] c.rejects.syllable_rejects@[i])@
            == p
    ||| exists|i: int|
        0 <= i < c.rejects.grapheme_rejects@.len() && (#[trigger] c.rejects.grapheme_rejects@[i])@
            == p
}

/// `out` realizes `units` against the configuration's group table.
pub open spec fn config_is_realization(
    cgroups: Seq<GraphemeGroup>,
    units: Seq<Seq<char>>,
    out: Seq<char>,
) -> bool
    decreases units.len(),
{
    if units.len() == 0 {
        out == Seq::<char>::empty()
    } else {
        match config_group_index(cgroups, units[0]) {
            Some(i) => exists|g: Seq<char>, rest: Seq<char>| #![trigger g + rest]
                out == g + rest && valid_draw(group_items(cgroups[i]), g) && config_is_realization(
                    cgroups,
                    units.skip(1),
                    rest,
                ),
            None => false,
        }
    }
}

/// The registry that `transform_graphemes` builds looks names up exactly as
/// the configuration's group table does.
proof fn lemma_registry_group_index(
    groups_v: Seq<(String, Vec<WeightedItem>)>,
    cgroups: Seq<GraphemeGroup>,
    name: Seq<char>,
)
    requires
        groups_v.len() == cgroups.len(),
        forall|i: int|
            0 <= i < cgroups.len() ==> (#[trigger] groups_v[i]).0 == cgroups[i].name
                && groups_v[i].1@ == group_items(cgroups[i]),
    ensures
        group_index(groups_v, name) == config_group_index(cgroups, name),
        group_index(groups_v, name) matches Some(i) ==> 0 <= i < groups_v.len(),
        unit_realizable(groups_v, name) == config_unit_realizable(cgroups, name),
    decreases cgroups.len(),
{
    if cgroups.len() > 0 {
        assert(groups_v.last().0 == cgroups.last().name);
        if groups_v.last().0@ == name {
        } else {
            let gv = groups_v.take(groups_v.len() - 1);
            let cg = cgroups.take(cgroups.len() - 1);
            assert(forall|i: int|
                0 <= i < cg.len() ==> (#[trigger] gv[i]).0 == cg[i].name && gv[i].1@ == group_items(
                    cg[i],
                ));
            lemma_registry_group_index(gv, cg, name);
        }
    }
    match group_index(groups_v, name) {
        Some(i) => {
            assert(groups_v[i].1@ == group_items(cgroups[i]));
        },
        None => {},
    }
}

/// The registry realizes a unit list exactly as the configuration's group
/// table does.
proof fn lemma_registry_realization(
    groups_v: Seq<(String, Vec<WeightedItem>)>,
    cgroups: Seq<GraphemeGroup>,
    units: Seq<Seq<char>>,
    out: Seq<char>,
)
    requires
        groups_v.len() == cgroups.len(),
        forall|i: int|
            0 <= i < cgroups.len() ==> (#[trigger] groups_v[i]).0 == cgroups[i].name
                && groups_v[i].1@ == group_items(cgroups[i]),
    ensures
        is_realization(groups_v, units, out) == config_is_realization(cgroups, units, out),
    decreases units.len(),
{
    if units.len() > 0 {
        lemma_registry_group_index(groups_v, cgroups, units[0]);
        match group_index(groups_v, units[0]) {
            Some(i) => {
                if is_realization(groups_v, units, out) {
                    let (g, rest) = choose|g: Seq<char>, rest: Seq<char>|
                        out == g + rest && valid_draw(groups_v[i].1@, g) && is_realization(
                            groups_v,
                            units.skip(1),
                            rest,
                        );
                    lemma_registry_realization(groups_v, cgroups, units.skip(1), rest);
                    assert(valid_draw(group_items(cgroups[i]), g));
                    assert(config_is_realization(cgroups, units, out));
                }
                if config_is_realization(cgroups, units, out) {
                    let (g, rest) = choose|g: Seq<char>, rest: Seq<char>|
                        out == g + rest && valid_draw(group_items(cgroups[i]), g)
                            && config_is_realization(cgroups, units.skip(1), rest);
                    lemma_registry_realization(groups_v, cgroups, units.skip(1), rest);
                    assert(valid_draw(groups_v[i].1@, g));
                    assert(is_realization(groups_v, units, out));
                }
            },
            None => {},
        }
    }
}

/// Every unit of the list has a usable group in the configuration's table.
pub open spec fn config_units_realizable(groups: Seq<GraphemeGroup>, units: Seq<Seq<char>>) -> bool {
    forall|k: int| 0 <= k < units.len() ==> config_unit_realizable(groups, #[trigger] units[k])
}

/// Every skeleton the configuration's pools can assemble, after the
/// syllable rewrite chain, splits into units its group table can realize.
pub open spec fn config_all_skeletons_realizable(c: WordGeneratorConfig) -> bool {
    forall|count: int, s: Seq<char>|
        #![trigger is_skeleton(pool_of(PoolKind::First, c.syllables@), pool_of(PoolKind::Normal, c.syllables@), pool_of(PoolKind::Last, c.syllables@), count, s)]
        (1 <= count <= config_max_count(c) && is_skeleton(
            pool_of(PoolKind::First, c.syllables@),
            pool_of(PoolKind::Normal, c.syllables@),
            pool_of(PoolKind::Last, c.syllables@),
            count,
            s,
        )) ==> config_units_realizable(
            c.graphemes@,
            units_of(effective_of(s, c.rewrites.syllable_rewrites@)),
        )
}

/// No word the pipeline can complete under the configuration carries a
/// reject.
pub open spec fn config_no_outcome_rejected(c: WordGeneratorConfig) -> bool {
    forall|w: Word|
        #[trigger] config_complete_word(c, w) ==> w.syllable_rejects@.len() == 0
            && w.grapheme_rejects@.len() == 0
}

/// The first symbol unit of the configuration's syllable table, in symbol
/// then unit order, that its group table cannot realize, with the error
/// that reports it: a missing group names the unit, a group with no
/// positive weight reports an empty candidate set.
pub open spec fn config_bad_unit_at(c: WordGeneratorConfig, i: int, k: int, e: GenError) -> bool {
    &&& 0 <= i < c.syllables@.len()
    &&& 0 <= k < units_of(c.syllables@[i].string@).len()
    &&& !config_unit_realizable(c.graphemes@, units_of(c.syllables@[i].string@)[k])
    &&& forall|a: int|
        0 <= a < i ==> config_units_realizable(
            c.graphemes@,
            units_of((#[trigger] c.syllables@[a]).string@),
        )
    &&& forall|b: int|
        0 <= b < k ==> config_unit_realizable(
            c.graphemes@,
            #[trigger] units_of(c.syllables@[i].string@)[b],
        )
    &&& match config_group_index(c.graphemes@, units_of(c.syllables@[i].string@)[k]) {
        None => e matches GenError::UnknownGraphemeGroup(u) && u@ == units_of(
            c.syllables@[i].string@,
        )[k],
        Some(_) => e == GenError::EmptyCandidateSet,
    }
}

/// A completed word, stated over the configuration alone: the same contract
/// as `complete_word`, with the pools and the group table read off the
/// configuration.
pub open spec fn config_complete_word(c: WordGeneratorConfig, w: Word) -> bool {
    &&& 1 <= w.syllable_count
    &&& w.syllable_count <= config_max_count(c)
    &&& is_skeleton(
        pool_of(PoolKind::First, c.syllables@),
        pool_of(PoolKind::Normal, c.syllables@),
        pool_of(PoolKind::Last, c.syllables@),
        w.syllable_count as int,
        w.syllables@,
    )
    &&& history_view(w.syllable_rewrite_history@) == chain_of(
        w.syllables@,
        c.rewrites.syllable_rewrites@,
    )
    &&& w.syllable_rejects@ == matched_rejects(
        c.rejects.syllable_rejects@,
        if c.settings.rewrites_before_rejects {
            effective_of(w.syllables@, c.rewrites.syllable_rewrites@)
        } else {
            w.syllables@
        },
    )
    &&& config_is_realization(c.graphemes@, units_of(w.effective_skeleton()), w.graphemes@)
    &&& history_view(w.grapheme_rewrite_history@) == chain_of(
        w.graphemes@,
        c.rewrites.grapheme_rewrites@,
    )
    &&& w.grapheme_rejects@ == matched_rejects(
        c.rejects.grapheme_rejects@,
        if c.settings.rewrites_before_rejects {
            effective_of(w.graphemes@, c.rewrites.grapheme_rewrites@)
        } else {
            w.graphemes@
        },
    )
}

/// Validates a configuration eagerly and only then generates a whole batch:
/// every pattern must compile, every pool a draw may need must be usable,
/// and every symbol unit of the syllable table must have a usable grapheme
/// group — each failure is fatal and reported before any word is generated.
/// `attempt_cap` bounds how many words drop-mode may generate in all.
pub fn run_generation(
    config: &WordGeneratorConfig,
    rng: &mut RandomSource,
    attempt_cap: usize,
) -> (r: Result<Vec<Word>, GenError>)
    ensures
        r matches Ok(words) ==> ({
            &&& config_patterns_wf(*config)
            &&& config_pools_wf(*config)
            &&& config_groups_wf(*config)
            &&& words@.len() == config.settings.word_count
            &&& forall|i: int|
                0 <= i < words@.len() ==> config_complete_word(*config, #[trigger] words@[i])
            &&& !config.settings.output_settings.only_mark_rejects ==> forall|i: int|
                0 <= i < words@.len() ==> (#[trigger] words@[i]).syllable_rejects@.len() == 0
                    && words@[i].grapheme_rejects@.len() == 0
        }),
        (r matches Err(GenError::InvalidPattern(_))) <==> !config_patterns_wf(*config),
        r matches Err(GenError::InvalidPattern(p)) ==> !pattern_ok(p@) && config_has_pattern(
            *config,
            p@,
        ),
        (r matches Err(GenError::EmptyPool(_))) <==> (config_patterns_wf(*config)
            && !config_pools_wf(*config)),
        r == Err::<Vec<Word>, GenError>(GenError::EmptyPool(PoolKind::First)) ==> !(total_weight(
            pool_of(PoolKind::First, config.syllables@),
        ) > 0),
        r == Err::<Vec<Word>, GenError>(GenError::EmptyPool(PoolKind::Last)) ==> config_max_count(
            *config,
        ) >= 2 && !(total_weight(pool_of(PoolKind::Last, config.syllables@)) > 0),
        r == Err::<Vec<Word>, GenError>(GenError::EmptyPool(PoolKind::Normal))
            ==> config_max_count(*config) >= 3 && !(total_weight(
            pool_of(PoolKind::Normal, config.syllables@),
        ) > 0),
        r matches Err(e) ==> ((e matches GenError::UnknownGraphemeGroup(_) || e
            == GenError::EmptyCandidateSet) ==> config_patterns_wf(*config) && config_pools_wf(
            *config,
        )),
        (config_patterns_wf(*config) && config_pools_wf(*config) && !config_groups_wf(*config))
            ==> (r matches Err(e) && exists|i: int, k: int|
            config_bad_unit_at(*config, i, k, e)),
        r == Err::<Vec<Word>, GenError>(GenError::GenerationExhausted) ==> config_patterns_wf(
            *config,
        ) && config_pools_wf(*config) && config_groups_wf(*config)
            && !config.settings.output_settings.only_mark_rejects,
        (config_patterns_wf(*config) && config_pools_wf(*config) && config_groups_wf(*config)
            && config_all_skeletons_realizable(*config)
            && config.settings.output_settings.only_mark_rejects) ==> r is Ok,
        (config_patterns_wf(*config) && config_pools_wf(*config) && config_groups_wf(*config)
            && config_all_skeletons_realizable(*config) && config_no_outcome_rejected(*config)
            && attempt_cap >= config.settings.word_count
            && !config.settings.output_settings.only_mark_rejects) ==> r is Ok,
{
    let factory = WordFactory::from_config(config);
    match check_rewrite_patterns(&factory.rewrites.syllable_rewrites) {
        Some(p) => {
            return Err(GenError::InvalidPattern(p));
        },
        None => {},
    }
    match check_rewrite_patterns(&factory.rewrites.grapheme_rewrites) {
        Some(p) => {
            return Err(GenError::InvalidPattern(p));
        },
        None => {},
    }
    match check_reject_patterns(&factory.rejects.syllable_rejects) {
        Some(p) => {
            return Err(GenError::InvalidPattern(p));
        },
        None => {},
    }
    match check_reject_patterns(&factory.rejects.grapheme_rejects) {
        Some(p) => {
            return Err(GenError::InvalidPattern(p));
        },
        None => {},
    }
    match check_pools(&factory) {
        Some(kind) => {
            return Err(GenError::EmptyPool(kind));
        },
        None => {},
    }
    proof {
        assert(factory.max_count() == config_max_count(*config));
    }
    match check_groups(&factory.graphemes, &config.syllables) {
        Some(e) => {
            proof {
                let (i, k) = choose|i: int, k: int|
                    bad_unit_at(factory.graphemes@, config.syllables@, i, k, e);
                lemma_registry_group_index(
                    factory.graphemes@,
                    config.graphemes@,
                    units_of(config.syllables@[i].string@)[k],
                );
                assert(!config_unit_realizable(
                    config.graphemes@,
                    units_of(config.syllables@[i].string@)[k],
                ));
                assert(!config_groups_wf(*config));
                assert forall|a: int| 0 <= a < i implies config_units_realizable(
                    config.graphemes@,
                    units_of((#[trigger] config.syllables@[a]).string@),
                ) by {
                    let us = units_of(config.syllables@[a].string@);
                    assert(all_units_realizable(factory.graphemes@, us));
                    assert forall|kk: int| 0 <= kk < us.len() implies config_unit_realizable(
                        config.graphemes@,
                        #[trigger] us[kk],
                    ) by {
                        assert(unit_realizable(factory.graphemes@, us[kk]));
                        lemma_registry_group_index(factory.graphemes@, config.graphemes@, us[kk]);
                    }
                }
                assert forall|b: int| 0 <= b < k implies config_unit_realizable(
                    config.graphemes@,
                    #[trigger] units_of(config.syllables@[i].string@)[b],
                ) by {
                    assert(unit_realizable(
                        factory.graphemes@,
                        units_of(config.syllables@[i].string@)[b],
                    ));
                    lemma_registry_group_index(
                        factory.graphemes@,
                        config.graphemes@,
                        units_of(config.syllables@[i].string@)[b],
                    );
                }
                assert(config_bad_unit_at(*config, i, k, e));
            }
            return Err(e);
        },
        None => {},
    }
    proof {
        assert(config_groups_wf(*config)) by {
            assert forall|i: int, k: int|
                0 <= i < config.syllables@.len() && 0 <= k < units_of(
                    config.syllables@[i].string@,
                ).len() implies config_unit_realizable(
                config.graphemes@,
                units_of(config.syllables@[i].string@)[k],
            ) by {
                assert(all_units_realizable(
                    factory.graphemes@,
                    units_of(config.syllables@[i].string@),
                ));
                assert(unit_realizable(
                    factory.graphemes@,
                    units_of(config.syllables@[i].string@)[k],
                ));
                lemma_registry_group_index(
                    factory.graphemes@,
                    config.graphemes@,
                    units_of(config.syllables@[i].string@)[k],
                );
            }
        }
        if config_all_skeletons_realizable(*config) {
            assert forall|count: int, s: Seq<char>|
                #![trigger is_skeleton(factory.first_syllable_list@, factory.normal_syllable_list@, factory.last_syllable_list@, count, s)]
                (1 <= count <= factory.max_count() && is_skeleton(
                    factory.first_syllable_list@,
                    factory.normal_syllable_list@,
                    factory.last_syllable_list@,
                    count,
                    s,
                )) implies all_units_realizable(
                factory.graphemes@,
                units_of(effective_of(s, factory.rewrites.syllable_rewrites@)),
            ) by {
                assert(is_skeleton(
                    pool_of(PoolKind::First, config.syllables@),
                    pool_of(PoolKind::Normal, config.syllables@),
                    pool_of(PoolKind::Last, config.syllables@),
                    count,
                    s,
                ));
                let us = units_of(effective_of(s, config.rewrites.syllable_rewrites@));
                assert(config_units_realizable(config.graphemes@, us));
                assert forall|k: int| 0 <= k < us.len() implies unit_realizable(
                    factory.graphemes@,
                    #[trigger] us[k],
                ) by {
                    assert(config_unit_realizable(config.graphemes@, us[k]));
                    lemma_registry_group_index(factory.graphemes@, config.graphemes@, us[k]);
                }
                assert(units_of(effective_of(s, factory.rewrites.syllable_rewrites@)) == us);
            }
            assert(all_skeletons_realizable(factory));
        }
        if config_no_outcome_rejected(*config) {
            assert forall|w: Word| #[trigger] complete_word(factory, w) implies (
            w.syllable_rejects@.len() == 0 && w.grapheme_rejects@.len() == 0) by {
                lemma_registry_realization(
                    factory.graphemes@,
                    config.graphemes@,
                    units_of(w.effective_skeleton()),
                    w.graphemes@,
                );
                assert(config_complete_word(*config, w));
            }
            assert(no_outcome_rejected(factory));
        }
    }
    match generate_word_list(&factory, rng, attempt_cap) {
        Ok(words) => {
            proof {
                assert forall|i: int| 0 <= i < words@.len() implies config_complete_word(
                    *config,
                    #[trigger] words@[i],
                ) by {
                    assert(complete_word(factory, words@[i]));
                    lemma_registry_realization(
                        factory.graphemes@,
                        config.graphemes@,
                        units_of(words@[i].effective_skeleton()),
                        words@[i].graphemes@,
                    );
                }
            }
            Ok(words)
        },
        Err(e) => {
            Err(e)
        },
    }
}

} // verus!
