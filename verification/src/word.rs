use vstd::prelude::*;
use vstd::string::StringExecFns;

use crate::config::DECAY_ONE;
use crate::config::GenerateSettings;
use crate::config::RejectGroup;
use crate::config::Rewrite;
use crate::config::RewriteGroup;
use crate::errors::GenError;
use crate::patterns::apply_single_rewrite;
use crate::patterns::pattern_matches;
use crate::patterns::pattern_ok;
use crate::patterns::regex_match;
use crate::patterns::replace_all_of;
use crate::rng::RandomSource;
use crate::sampler::get_random_from_weighted;
use crate::sampler::total_weight;
use crate::sampler::valid_draw;
use crate::sampler::WeightedItem;
use crate::segment::split_units;
use crate::segment::units_of;

verus! {

/// The record of one generated word, threaded through the pipeline: the raw
/// skeleton and grapheme strings, one rewrite history per stage, and the
/// reject patterns that matched per stage.
pub struct Word {
    pub syllables: String,
    pub graphemes: String,
    pub syllable_rewrite_history: Vec<(Rewrite, String)>,
    pub grapheme_rewrite_history: Vec<(Rewrite, String)>,
    pub syllable_rejects: Vec<String>,
    pub grapheme_rejects: Vec<String>,
    pub syllable_count: usize,
}

/// The effective text of a stage: the result of the last rewrite that
/// matched, or the raw text when the history is empty.
pub open spec fn effective_text(base: Seq<char>, h: Seq<(Rewrite, String)>) -> Seq<char> {
    if h.len() == 0 {
        base
    } else {
        h.last().1@
    }
}

/// A rewrite history with each resulting string abstracted to its view.
pub open spec fn history_view(h: Seq<(Rewrite, String)>) -> Seq<(Rewrite, Seq<char>)> {
    h.map_values(|e: (Rewrite, String)| (e.0, e.1@))
}

impl Word {
    /// The skeleton that later stages see: rewritten if any skeleton rewrite
    /// matched, raw otherwise.
    pub open spec fn effective_skeleton(self) -> Seq<char> {
        effective_text(self.syllables@, self.syllable_rewrite_history@)
    }

    /// The grapheme string that later stages see.
    pub open spec fn effective_graphemes(self) -> Seq<char> {
        effective_text(self.graphemes@, self.grapheme_rewrite_history@)
    }

    /// A fresh record, before any pipeline stage has run on it.
    pub fn empty() -> (w: Word)
        ensures
            w.syllables@ == Seq::<char>::empty(),
            w.graphemes@ == Seq::<char>::empty(),
            w.syllable_rewrite_history@.len() == 0,
            w.grapheme_rewrite_history@.len() == 0,
            w.syllable_rejects@.len() == 0,
            w.grapheme_rejects@.len() == 0,
            w.syllable_count == 0,
    {
        Word {
            syllables: String::new(),
            graphemes: String::new(),
            syllable_rewrite_history: Vec::new(),
            grapheme_rewrite_history: Vec::new(),
            syllable_rejects: Vec::new(),
            grapheme_rejects: Vec::new(),
            syllable_count: 0,
        }
    }
}

/// The effective skeleton of the word: the last skeleton rewrite's result,
/// or the raw skeleton when no skeleton rewrite matched.
pub fn get_word_syllables(word: &Word) -> (r: String)
    ensures
        r@ == word.effective_skeleton(),
{
    let n = word.syllable_rewrite_history.len();
    if n == 0 {
        word.syllables.clone()
    } else {
        word.syllable_rewrite_history[n - 1].1.clone()
    }
}

/// The effective grapheme string of the word: the last grapheme rewrite's
/// result, or the raw grapheme string when no grapheme rewrite matched.
pub fn get_word_graphemes(word: &Word) -> (r: String)
    ensures
        r@ == word.effective_graphemes(),
{
    let n = word.grapheme_rewrite_history.len();
    if n == 0 {
        word.graphemes.clone()
    } else {
        word.grapheme_rewrite_history[n - 1].1.clone()
    }
}

/// Every rewrite rule of the list carries a pattern that compiles.
pub open spec fn rewrite_patterns_ok(rules: Seq<Rewrite>) -> bool {
    forall|i: int| 0 <= i < rules.len() ==> pattern_ok(#[trigger] rules[i].pattern@)
}

/// Every reject pattern of the list compiles.
pub open spec fn reject_patterns_ok(patterns: Seq<String>) -> bool {
    forall|i: int| 0 <= i < patterns.len() ==> pattern_ok(#[trigger] patterns[i]@)
}

/// The transformation history that the ordered `rules` produce on `source`:
/// one entry per rule whose pattern matches, in rule order, each rule applied
/// to the cumulative result of all earlier matching rules.
pub open spec fn chain_of(source: Seq<char>, rules: Seq<Rewrite>) -> Seq<(Rewrite, Seq<char>)>
    decreases rules.len(),
{
    if rules.len() == 0 {
        Seq::empty()
    } else if regex_match(rules[0].pattern@, source) {
        let next = replace_all_of(rules[0].pattern@, rules[0].replace@, source);
        seq![(rules[0], next)] + chain_of(next, rules.skip(1))
    } else {
        chain_of(source, rules.skip(1))
    }
}

/// The effective string after the whole chain: the last entry's result, or
/// the source when no rule matched.
pub open spec fn effective_of(source: Seq<char>, rules: Seq<Rewrite>) -> Seq<char> {
    if chain_of(source, rules).len() == 0 {
        source
    } else {
        chain_of(source, rules).last().1
    }
}

/// The reject patterns of the ordered list that match the text, in list
/// order; checking never short-circuits, so every matching pattern appears.
pub open spec fn matched_rejects(patterns: Seq<String>, text: Seq<char>) -> Seq<String>
    decreases patterns.len(),
{
    if patterns.len() == 0 {
        Seq::empty()
    } else if regex_match(patterns[0]@, text) {
        seq![patterns[0]] + matched_rejects(patterns.skip(1), text)
    } else {
        matched_rejects(patterns.skip(1), text)
    }
}

/// Appending one rule to a rule list extends the chain by exactly one entry
/// when the rule matches the current effective string, and leaves it
/// unchanged otherwise.
pub proof fn lemma_chain_snoc(source: Seq<char>, rules: Seq<Rewrite>, r: Rewrite)
    ensures
        regex_match(r.pattern@, effective_of(source, rules)) ==> chain_of(source, rules.push(r))
            == chain_of(source, rules).push(
            (
                r,
                replace_all_of(r.pattern@, r.replace@, effective_of(source, rules)),
            ),
        ),
        !regex_match(r.pattern@, effective_of(source, rules)) ==> chain_of(source, rules.push(r))
            == chain_of(source, rules),
    decreases rules.len(),
{
    if rules.len() == 0 {
        assert(rules.push(r)[0] == r);
        assert(rules.push(r).skip(1) =~= Seq::<Rewrite>::empty());
        assert(chain_of(source, rules) == Seq::<(Rewrite, Seq<char>)>::empty());
        if regex_match(r.pattern@, source) {
            let next = replace_all_of(r.pattern@, r.replace@, source);
            assert(chain_of(next, Seq::<Rewrite>::empty()) == Seq::<(Rewrite, Seq<char>)>::empty());
            assert(chain_of(source, rules.push(r)) =~= chain_of(source, rules).push((r, next)));
        } else {
            assert(chain_of(source, Seq::<Rewrite>::empty()) == Seq::<(
                Rewrite,
                Seq<char>,
            )>::empty());
        }
    } else {
        assert(rules.push(r)[0] == rules[0]);
        assert(rules.push(r).skip(1) =~= rules.skip(1).push(r));
        if regex_match(rules[0].pattern@, source) {
            let next = replace_all_of(rules[0].pattern@, rules[0].replace@, source);
            lemma_chain_snoc(next, rules.skip(1), r);
            assert(effective_of(source, rules) == effective_of(next, rules.skip(1)));
            let head = seq![(rules[0], next)];
            if regex_match(r.pattern@, effective_of(source, rules)) {
                let entry = (
                    r,
                    replace_all_of(r.pattern@, r.replace@, effective_of(source, rules)),
                );
                assert(chain_of(source, rules.push(r)) == head + chain_of(
                    next,
                    rules.skip(1).push(r),
                ));
                assert(head + chain_of(next, rules.skip(1)).push(entry) =~= (head + chain_of(
                    next,
                    rules.skip(1),
                )).push(entry));
            } else {
                assert(chain_of(source, rules.push(r)) == head + chain_of(
                    next,
                    rules.skip(1),
                ));
            }
        } else {
            lemma_chain_snoc(source, rules.skip(1), r);
            assert(effective_of(source, rules) == effective_of(source, rules.skip(1)));
        }
    }
}

/// Appending one pattern to a reject list extends the matched set by that
/// pattern exactly when it matches the text.
pub proof fn lemma_rejects_snoc(patterns: Seq<String>, p: String, text: Seq<char>)
    ensures
        regex_match(p@, text) ==> matched_rejects(patterns.push(p), text) == matched_rejects(
            patterns,
            text,
        ).push(p),
        !regex_match(p@, text) ==> matched_rejects(patterns.push(p), text) == matched_rejects(
            patterns,
            text,
        ),
    decreases patterns.len(),
{
    if patterns.len() == 0 {
        assert(patterns.push(p)[0] == p);
        assert(patterns.push(p).skip(1) =~= Seq::<String>::empty());
        assert(matched_rejects(Seq::<String>::empty(), text) == Seq::<String>::empty());
        assert(matched_rejects(patterns, text) == Seq::<String>::empty());
        if regex_match(p@, text) {
            assert(matched_rejects(patterns.push(p), text) =~= matched_rejects(
                patterns,
                text,
            ).push(p));
        }
    } else {
        assert(patterns.push(p)[0] == patterns[0]);
        assert(patterns.push(p).skip(1) =~= patterns.skip(1).push(p));
        lemma_rejects_snoc(patterns.skip(1), p, text);
        if regex_match(patterns[0]@, text) {
            let head = seq![patterns[0]];
            if regex_match(p@, text) {
                assert(head + matched_rejects(patterns.skip(1), text).push(p) =~= (head
                    + matched_rejects(patterns.skip(1), text)).push(p));
            }
        }
    }
}

/// Runs the rewrite engine: applies the ordered rules to the current
/// effective text of the history over `base`, appending one `(rule, result)`
/// entry per matching rule.
fn run_rewrite_chain(rules: &Vec<Rewrite>, base: &String, history: &mut Vec<(Rewrite, String)>)
    requires
        rewrite_patterns_ok(rules@),
    ensures
        history_view(final(history)@) == history_view(old(history)@) + chain_of(
            effective_text(base@, old(history)@),
            rules@,
        ),
        effective_text(base@, final(history)@) == effective_of(
            effective_text(base@, old(history)@),
            rules@,
        ),
{
    let ghost src0 = effective_text(base@, history@);
    let ghost h0 = history@;
    proof {
        assert(rules@.take(0) =~= Seq::<Rewrite>::empty());
        assert(chain_of(src0, Seq::<Rewrite>::empty()) == Seq::<(Rewrite, Seq<char>)>::empty());
        assert(history_view(history@) =~= history_view(h0) + chain_of(src0, rules@.take(0)));
    }
    let mut i: usize = 0;
    while i < rules.len()
        invariant
            i <= rules.len(),
            rewrite_patterns_ok(rules@),
            history_view(history@) == history_view(h0) + chain_of(src0, rules@.take(i as int)),
            effective_text(base@, history@) == effective_of(src0, rules@.take(i as int)),
            h0.len() <= history@.len(),
        decreases rules.len() - i,
    {
        let rewrite = &rules[i];
        let current = if history.len() == 0 {
            base.clone()
        } else {
            history[history.len() - 1].1.clone()
        };
        proof {
            assert(current@ == effective_of(src0, rules@.take(i as int)));
            assert(rules@.take(i as int).push(rules@[i as int]) =~= rules@.take(i as int + 1));
            lemma_chain_snoc(src0, rules@.take(i as int), rules@[i as int]);
        }
        let result = apply_single_rewrite(&rewrite.pattern, &rewrite.replace, &current);
        match result {
            Some(next) => {
                let ghost hb = history@;
                let entry = (rewrite.duplicate(), next);
                let ghost e = entry;
                history.push(entry);
                proof {
                    assert(history@ == hb.push(e));
                    assert(e.0 == rules@[i as int]);
                    assert(e.1@ == replace_all_of(
                        rules@[i as int].pattern@,
                        rules@[i as int].replace@,
                        effective_of(src0, rules@.take(i as int)),
                    ));
                    assert(chain_of(src0, rules@.take(i as int + 1)) == chain_of(
                        src0,
                        rules@.take(i as int),
                    ).push((e.0, e.1@)));
                    assert(history_view(hb.push(e)) =~= history_view(hb).push((e.0, e.1@)));
                    assert(history_view(h0) + chain_of(src0, rules@.take(i as int + 1)) =~= (
                    history_view(h0) + chain_of(src0, rules@.take(i as int))).push((e.0, e.1@)));
                    assert(history_view(history@) == history_view(h0) + chain_of(
                        src0,
                        rules@.take(i as int + 1),
                    ));
                }
            },
            None => {
                proof {
                    assert(history_view(history@) =~= history_view(h0) + chain_of(
                        src0,
                        rules@.take(i as int + 1),
                    ));
                }
            },
        }
        i = i + 1;
    }
    proof {
        assert(rules@.take(rules@.len() as int) =~= rules@);
    }
}

/// Runs the reject engine: records, in order, every pattern of the list that
/// matches the text; no short-circuiting.
fn run_reject_marks(patterns: &Vec<String>, text: &String, rejects: &mut Vec<String>)
    requires
        reject_patterns_ok(patterns@),
    ensures
        final(rejects)@ == old(rejects)@ + matched_rejects(patterns@, text@),
{
    let ghost r0 = rejects@;
    proof {
        assert(patterns@.take(0) =~= Seq::<String>::empty());
        assert(matched_rejects(Seq::<String>::empty(), text@) == Seq::<String>::empty());
        assert(rejects@ =~= r0 + matched_rejects(patterns@.take(0), text@));
    }
    let mut i: usize = 0;
    while i < patterns.len()
        invariant
            i <= patterns.len(),
            reject_patterns_ok(patterns@),
            rejects@ == r0 + matched_rejects(patterns@.take(i as int), text@),
        decreases patterns.len() - i,
    {
        proof {
            assert(patterns@.take(i as int).push(patterns@[i as int]) =~= patterns@.take(
                i as int + 1,
            ));
            lemma_rejects_snoc(patterns@.take(i as int), patterns@[i as int], text@);
        }
        if pattern_matches(patterns[i].as_str(), text.as_str()) {
            rejects.push(patterns[i].clone());
            proof {
                assert(rejects@ =~= r0 + matched_rejects(patterns@.take(i as int + 1), text@));
            }
        } else {
            proof {
                assert(rejects@ =~= r0 + matched_rejects(patterns@.take(i as int + 1), text@));
            }
        }
        i = i + 1;
    }
    proof {
        assert(patterns@.take(patterns@.len() as int) =~= patterns@);
        assert(rejects@ =~= r0 + matched_rejects(patterns@, text@));
    }
}

/// The index of the grapheme group registered under `name`; the last group
/// of that name wins when names repeat.
pub open spec fn group_index(
    groups: Seq<(String, Vec<WeightedItem>)>,
    name: Seq<char>,
) -> Option<int>
    decreases groups.len(),
{
    if groups.len() == 0 {
        None
    } else if groups.last().0@ == name {
        Some((groups.len() - 1) as int)
    } else {
        group_index(groups.take(groups.len() - 1), name)
    }
}

/// A unit can be realized: some group carries its name, and that group has
/// positive total weight.
pub open spec fn unit_realizable(
    groups: Seq<(String, Vec<WeightedItem>)>,
    unit: Seq<char>,
) -> bool {
    group_index(groups, unit) matches Some(i) && total_weight(groups[i].1@) > 0
}

pub open spec fn all_units_realizable(
    groups: Seq<(String, Vec<WeightedItem>)>,
    units: Seq<Seq<char>>,
) -> bool {
    forall|k: int| 0 <= k < units.len() ==> unit_realizable(groups, #[trigger] units[k])
}

/// `out` realizes `units`: for each unit in order, a positive-weight
/// grapheme drawn from the group registered under it, all concatenated.
pub open spec fn is_realization(
    groups: Seq<(String, Vec<WeightedItem>)>,
    units: Seq<Seq<char>>,
    out: Seq<char>,
) -> bool
    decreases units.len(),
{
    if units.len() == 0 {
        out == Seq::<char>::empty()
    } else {
        match group_index(groups, units[0]) {
            Some(i) => exists|g: Seq<char>, rest: Seq<char>| #![trigger g + rest]
                out == g + rest && valid_draw(groups[i].1@, g) && is_realization(
                    groups,
                    units.skip(1),
                    rest,
                ),
            None => false,
        }
    }
}

/// The error that realizing `units` reports is decided by the first unit
/// that cannot be realized: a missing group names the unit, an unusable
/// group reports an empty candidate set.
pub open spec fn realization_error_at(
    groups: Seq<(String, Vec<WeightedItem>)>,
    units: Seq<Seq<char>>,
    k: int,
    e: GenError,
) -> bool {
    &&& 0 <= k < units.len()
    &&& !unit_realizable(groups, units[k])
    &&& forall|j: int| 0 <= j < k ==> unit_realizable(groups, #[trigger] units[j])
    &&& match group_index(groups, units[k]) {
        Some(_) => e == GenError::EmptyCandidateSet,
        None => e matches GenError::UnknownGraphemeGroup(u) && u@ == units[k],
    }
}

/// When a group at `j` carries the name and no later group does, the lookup
/// lands on `j`.
proof fn lemma_group_index_found(groups: Seq<(String, Vec<WeightedItem>)>, name: Seq<char>, j: int)
    requires
        0 <= j < groups.len(),
        groups[j].0@ == name,
        forall|k: int| j < k < groups.len() ==> (#[trigger] groups[k].0@) != name,
    ensures
        group_index(groups, name) == Some(j),
    decreases groups.len(),
{
    if j == groups.len() - 1 {
    } else {
        assert(groups.last().0@ != name);
        let front = groups.take(groups.len() - 1);
        assert(front[j] == groups[j]);
        assert(forall|k: int| j < k < front.len() ==> (#[trigger] front[k].0@) != name);
        lemma_group_index_found(front, name, j);
    }
}

/// When no group carries the name, the lookup finds nothing.
proof fn lemma_group_index_none(groups: Seq<(String, Vec<WeightedItem>)>, name: Seq<char>)
    requires
        forall|k: int| 0 <= k < groups.len() ==> (#[trigger] groups[k].0@) != name,
    ensures
        group_index(groups, name) is None,
    decreases groups.len(),
{
    if groups.len() > 0 {
        assert(groups.last().0@ != name);
        let front = groups.take(groups.len() - 1);
        assert(forall|k: int| 0 <= k < front.len() ==> (#[trigger] front[k].0@) != name);
        lemma_group_index_none(front, name);
    }
}

/// A realization can be extended by one more realized unit at its end.
proof fn lemma_realization_snoc(
    groups: Seq<(String, Vec<WeightedItem>)>,
    units: Seq<Seq<char>>,
    out: Seq<char>,
    u: Seq<char>,
    g: Seq<char>,
)
    requires
        is_realization(groups, units, out),
        group_index(groups, u) matches Some(i) && valid_draw(groups[i].1@, g),
    ensures
        is_realization(groups, units.push(u), out + g),
    decreases units.len(),
{
    assert(units.push(u)[0] == if units.len() == 0 {
        u
    } else {
        units[0]
    });
    if units.len() == 0 {
        assert(out == Seq::<char>::empty());
        assert(units.push(u).skip(1) =~= Seq::<Seq<char>>::empty());
        assert(is_realization(groups, Seq::<Seq<char>>::empty(), Seq::<char>::empty()));
        assert(out + g =~= g + Seq::<char>::empty());
        assert(is_realization(groups, units.push(u), out + g));
    } else {
        match group_index(groups, units[0]) {
            Some(i) => {
                let (g0, rest) = choose|g0: Seq<char>, rest: Seq<char>|
                    out == g0 + rest && valid_draw(groups[i].1@, g0) && is_realization(
                        groups,
                        units.skip(1),
                        rest,
                    );
                lemma_realization_snoc(groups, units.skip(1), rest, u, g);
                assert(units.push(u).skip(1) =~= units.skip(1).push(u));
                assert(out + g =~= g0 + (rest + g));
                assert(is_realization(groups, units.push(u), out + g));
            },
            None => {
                assert(false);
            },
        }
    }
}

/// Finds the grapheme group registered under a name; the last group of that
/// name wins.
pub(crate) fn lookup_group(
    grapheme_groups: &Vec<(String, Vec<WeightedItem>)>,
    name: &String,
) -> (r: Option<usize>)
    ensures
        r is Some <==> group_index(grapheme_groups@, name@) is Some,
        r matches Some(j) ==> group_index(grapheme_groups@, name@) == Some(j as int) && j
            < grapheme_groups@.len(),
{
    let n = grapheme_groups.len();
    let mut idx: usize = n;
    while idx > 0
        invariant
            idx <= n,
            n == grapheme_groups@.len(),
            forall|k: int| idx <= k < n ==> (#[trigger] grapheme_groups@[k].0@) != name@,
        decreases idx,
    {
        if grapheme_groups[idx - 1].0 == *name {
            proof {
                lemma_group_index_found(grapheme_groups@, name@, idx as int - 1);
            }
            return Some(idx - 1);
        }
        idx = idx - 1;
    }
    proof {
        lemma_group_index_none(grapheme_groups@, name@);
    }
    None
}

/// Looks up the grapheme group registered under a skeleton symbol unit and
/// draws one weighted grapheme from it.
pub fn syllable_element_to_random_grapheme(
    rng: &mut RandomSource,
    grapheme_groups: &Vec<(String, Vec<WeightedItem>)>,
    syllable_element: &String,
) -> (r: Result<String, GenError>)
    ensures
        r is Ok <==> unit_realizable(grapheme_groups@, syllable_element@),
        r matches Ok(s) ==> (group_index(grapheme_groups@, syllable_element@) matches Some(i)
            && valid_draw(grapheme_groups@[i].1@, s@)),
        r matches Err(e) ==> (match group_index(grapheme_groups@, syllable_element@) {
            Some(_) => e == GenError::EmptyCandidateSet,
            None => e matches GenError::UnknownGraphemeGroup(u) && u@ == syllable_element@,
        }),
{
    match lookup_group(grapheme_groups, syllable_element) {
        Some(j) => get_random_from_weighted(rng, &grapheme_groups[j].1),
        None => Err(GenError::UnknownGraphemeGroup(syllable_element.clone())),
    }
}

/// The chain of a rule list none of whose patterns matches the source is
/// empty, and the effective string is the source itself.
pub proof fn lemma_unmatched_rules_change_nothing(source: Seq<char>, rules: Seq<Rewrite>)
    requires
        forall|i: int| 0 <= i < rules.len() ==> !regex_match((#[trigger] rules[i]).pattern@, source),
    ensures
        chain_of(source, rules).len() == 0,
        effective_of(source, rules) == source,
    decreases rules.len(),
{
    if rules.len() > 0 {
        assert(!regex_match(rules[0].pattern@, source));
        assert(forall|i: int|
            0 <= i < rules.skip(1).len() ==> !regex_match(
                (#[trigger] rules.skip(1)[i]).pattern@,
                source,
            ));
        lemma_unmatched_rules_change_nothing(source, rules.skip(1));
    }
}

/// The deterministic concatenation of each referenced group's sole
/// grapheme, for registries where every referenced group holds exactly one.
pub open spec fn sole_realization(
    groups: Seq<(String, Vec<WeightedItem>)>,
    units: Seq<Seq<char>>,
) -> Seq<char>
    decreases units.len(),
{
    if units.len() == 0 {
        Seq::empty()
    } else {
        match group_index(groups, units[0]) {
            Some(i) => groups[i].1@[0].value@ + sole_realization(groups, units.skip(1)),
            None => Seq::empty(),
        }
    }
}

/// When every group that the units reference holds exactly one grapheme,
/// realization is deterministic: any realized string is the concatenation
/// of each referenced group's sole grapheme, unit by unit.
pub proof fn lemma_deterministic_realization(
    groups: Seq<(String, Vec<WeightedItem>)>,
    units: Seq<Seq<char>>,
    out: Seq<char>,
)
    requires
        is_realization(groups, units, out),
        forall|k: int|
            0 <= k < units.len() ==> (group_index(groups, #[trigger] units[k]) matches Some(i)
                ==> groups[i].1@.len() == 1),
    ensures
        out == sole_realization(groups, units),
    decreases units.len(),
{
    if units.len() > 0 {
        match group_index(groups, units[0]) {
            Some(i) => {
                let (g, rest) = choose|g: Seq<char>, rest: Seq<char>|
                    out == g + rest && valid_draw(groups[i].1@, g) && is_realization(
                        groups,
                        units.skip(1),
                        rest,
                    );
                assert(groups[i].1@.len() == 1);
                assert(g == groups[i].1@[0].value@);
                assert(forall|k: int|
                    0 <= k < units.skip(1).len() ==> (group_index(
                        groups,
                        #[trigger] units.skip(1)[k],
                    ) matches Some(i) ==> groups[i].1@.len() == 1));
                lemma_deterministic_realization(groups, units.skip(1), rest);
            },
            None => {
                assert(false);
            },
        }
    }
}

/// The immutable per-run machinery: the three position-constrained syllable
/// pools, the grapheme group registry, the rule lists and the settings.
pub struct WordFactory {
    pub first_syllable_list: Vec<WeightedItem>,
    pub last_syllable_list: Vec<WeightedItem>,
    pub normal_syllable_list: Vec<WeightedItem>,
    pub graphemes: Vec<(String, Vec<WeightedItem>)>,
    pub rewrites: RewriteGroup,
    pub rejects: RejectGroup,
    pub generate_settings: GenerateSettings,
}

/// `s` is a concatenation of `k` draws from `pool`, in order.
pub open spec fn draws_concat(pool: Seq<WeightedItem>, k: int, s: Seq<char>) -> bool
    decreases k,
{
    if k <= 0 {
        s == Seq::<char>::empty()
    } else {
        exists|a: Seq<char>, b: Seq<char>| #![trigger a + b]
            s == a + b && valid_draw(pool, a) && draws_concat(pool, k - 1, b)
    }
}

/// A run of draws can be extended by one more draw at its end.
pub proof fn lemma_draws_concat_snoc(pool: Seq<WeightedItem>, k: int, m: Seq<char>, d: Seq<char>)
    requires
        k >= 0,
        draws_concat(pool, k, m),
        valid_draw(pool, d),
    ensures
        draws_concat(pool, k + 1, m + d),
    decreases k,
{
    if k == 0 {
        assert(m == Seq::<char>::empty());
        assert(draws_concat(pool, 0, Seq::<char>::empty()));
        assert(m + d =~= d + Seq::<char>::empty());
        assert(draws_concat(pool, 1, m + d));
    } else {
        let (a, b) = choose|a: Seq<char>, b: Seq<char>|
            m == a + b && valid_draw(pool, a) && draws_concat(pool, k - 1, b);
        lemma_draws_concat_snoc(pool, k - 1, b, d);
        assert(m + d =~= a + (b + d));
        assert(draws_concat(pool, k + 1, m + d));
    }
}

/// The shape of an assembled skeleton for a syllable count: one first-pool
/// draw, `count - 2` normal-pool draws and one last-pool draw concatenated
/// in that order; a one-syllable word is a single first-pool draw.
pub open spec fn is_skeleton(
    first: Seq<WeightedItem>,
    normal: Seq<WeightedItem>,
    last: Seq<WeightedItem>,
    count: int,
    s: Seq<char>,
) -> bool {
    if count <= 1 {
        valid_draw(first, s)
    } else {
        exists|a: Seq<char>, m: Seq<char>, b: Seq<char>| #![trigger a + m + b]
            s == a + m + b && valid_draw(first, a) && draws_concat(normal, count - 2, m)
                && valid_draw(last, b)
    }
}

/// A draw from a pool that validation has already shown usable.
fn draw_from(rng: &mut RandomSource, pool: &Vec<WeightedItem>) -> (s: String)
    requires
        total_weight(pool@) > 0,
    ensures
        valid_draw(pool@, s@),
{
    match get_random_from_weighted(rng, pool) {
        Ok(s) => s,
        Err(_) => vstd::pervasive::unreached(),
    }
}

impl WordFactory {
    /// The number of syllables a word may at most have: the configured cap,
    /// floored at one since every word has at least one syllable.
    pub open spec fn max_count(self) -> int {
        if self.generate_settings.max_syllables < 1 {
            1
        } else {
            self.generate_settings.max_syllables as int
        }
    }

    /// Every pool that a draw may need is usable.
    pub open spec fn pools_wf(self) -> bool {
        &&& total_weight(self.first_syllable_list@) > 0
        &&& self.max_count() >= 2 ==> total_weight(self.last_syllable_list@) > 0
        &&& self.max_count() >= 3 ==> total_weight(self.normal_syllable_list@) > 0
    }

    /// Every rewrite and reject pattern of the run compiles.
    pub open spec fn patterns_wf(self) -> bool {
        &&& rewrite_patterns_ok(self.rewrites.syllable_rewrites@)
        &&& rewrite_patterns_ok(self.rewrites.grapheme_rewrites@)
        &&& reject_patterns_ok(self.rejects.syllable_rejects@)
        &&& reject_patterns_ok(self.rejects.grapheme_rejects@)
    }

    pub open spec fn wf(self) -> bool {
        self.pools_wf() && self.patterns_wf()
    }

    /// Decides the syllable count by the decaying continuation draw — the
    /// continuation probability starts at one and is multiplied by
    /// `1 - decay` after each syllable, capped at the configured maximum,
    /// with a floor of one syllable — then assembles the skeleton from the
    /// position pools.
    pub fn generate_syllables(&self, rng: &mut RandomSource, word: &mut Word)
        requires
            self.pools_wf(),
        ensures
            1 <= final(word).syllable_count,
            final(word).syllable_count <= self.max_count(),
            is_skeleton(
                self.first_syllable_list@,
                self.normal_syllable_list@,
                self.last_syllable_list@,
                final(word).syllable_count as int,
                final(word).syllables@,
            ),
            final(word).graphemes == old(word).graphemes,
            final(word).syllable_rewrite_history == old(word).syllable_rewrite_history,
            final(word).grapheme_rewrite_history == old(word).grapheme_rewrite_history,
            final(word).syllable_rejects == old(word).syllable_rejects,
            final(word).grapheme_rejects == old(word).grapheme_rejects,
    {
        let max = self.generate_settings.max_syllables;
        let one = DECAY_ONE as u128;
        let decay = if self.generate_settings.syllable_decay_rate > DECAY_ONE {
            one
        } else {
            self.generate_settings.syllable_decay_rate as u128
        };
        let mut count: usize = 0;
        let mut p: u128 = one;
        let mut stop = false;
        while !stop
            invariant
                count <= max,
                p <= one,
                one == DECAY_ONE as u128,
                decay <= one,
            decreases (max - count) + (if stop {
                0int
            } else {
                1int
            }),
        {
            let roll = rng.gen_below(one);
            if roll < p && count < max {
                count = count + 1;
                proof {
                    let pi = p as int;
                    let di = decay as int;
                    let oi = one as int;
                    assert(pi * (oi - di) <= oi * oi) by (nonlinear_arith)
                        requires
                            0 <= pi <= oi,
                            0 <= di <= oi,
                    ;
                    assert(pi * (oi - di) / oi <= oi) by (nonlinear_arith)
                        requires
                            0 <= pi <= oi,
                            0 <= di <= oi,
                            oi > 0,
                    ;
                }
                p = p * (one - decay) / one;
            } else {
                stop = true;
            }
        }
        if count == 0 {
            count = 1;
        }
        word.syllable_count = count;
        if count == 1 {
            let s = draw_from(rng, &self.first_syllable_list);
            word.syllables = s;
        } else {
            let mut temp = draw_from(rng, &self.first_syllable_list);
            let ghost ga = temp@;
            let ghost mut gm = Seq::<char>::empty();
            let mut idx: usize = 2;
            while idx < count
                invariant
                    2 <= idx,
                    idx <= count,
                    count >= 2,
                    count >= 3 ==> total_weight(self.normal_syllable_list@) > 0,
                    temp@ == ga + gm,
                    valid_draw(self.first_syllable_list@, ga),
                    draws_concat(self.normal_syllable_list@, idx as int - 2, gm),
                decreases count - idx,
            {
                let d = draw_from(rng, &self.normal_syllable_list);
                proof {
                    lemma_draws_concat_snoc(self.normal_syllable_list@, idx as int - 2, gm, d@);
                }
                temp.append(d.as_str());
                proof {
                    gm = gm + d@;
                    assert(temp@ =~= ga + gm);
                }
                idx = idx + 1;
            }
            let b = draw_from(rng, &self.last_syllable_list);
            temp.append(b.as_str());
            proof {
                assert(temp@ =~= ga + gm + b@);
            }
            word.syllables = temp;
        }
    }

    /// Applies the ordered syllable rewrite rules to the word's current
    /// effective skeleton, chaining results and recording the history.
    pub fn rewrite_syllables(&self, word: &mut Word)
        requires
            rewrite_patterns_ok(self.rewrites.syllable_rewrites@),
        ensures
            history_view(final(word).syllable_rewrite_history@) == history_view(
                old(word).syllable_rewrite_history@,
            ) + chain_of(old(word).effective_skeleton(), self.rewrites.syllable_rewrites@),
            final(word).effective_skeleton() == effective_of(
                old(word).effective_skeleton(),
                self.rewrites.syllable_rewrites@,
            ),
            final(word).syllables == old(word).syllables,
            final(word).graphemes == old(word).graphemes,
            final(word).grapheme_rewrite_history == old(word).grapheme_rewrite_history,
            final(word).syllable_rejects == old(word).syllable_rejects,
            final(word).grapheme_rejects == old(word).grapheme_rejects,
            final(word).syllable_count == old(word).syllable_count,
    {
        let base = word.syllables.clone();
        run_rewrite_chain(
            &self.rewrites.syllable_rewrites,
            &base,
            &mut word.syllable_rewrite_history,
        );
    }

    /// Applies the ordered grapheme rewrite rules to the word's current
    /// effective grapheme string, chaining results and recording the history.
    pub fn rewrite_graphemes(&self, word: &mut Word)
        requires
            rewrite_patterns_ok(self.rewrites.grapheme_rewrites@),
        ensures
            history_view(final(word).grapheme_rewrite_history@) == history_view(
                old(word).grapheme_rewrite_history@,
            ) + chain_of(old(word).effective_graphemes(), self.rewrites.grapheme_rewrites@),
            final(word).effective_graphemes() == effective_of(
                old(word).effective_graphemes(),
                self.rewrites.grapheme_rewrites@,
            ),
            final(word).syllables == old(word).syllables,
            final(word).graphemes == old(word).graphemes,
            final(word).syllable_rewrite_history == old(word).syllable_rewrite_history,
            final(word).syllable_rejects == old(word).syllable_rejects,
            final(word).grapheme_rejects == old(word).grapheme_rejects,
            final(word).syllable_count == old(word).syllable_count,
    {
        let base = word.graphemes.clone();
        run_rewrite_chain(
            &self.rewrites.grapheme_rewrites,
            &base,
            &mut word.grapheme_rewrite_history,
        );
    }

    /// Records every syllable reject pattern that matches the word's current
    /// effective skeleton, in pattern order, without short-circuiting.
    pub fn mark_syllable_rejects(&self, word: &mut Word)
        requires
            reject_patterns_ok(self.rejects.syllable_rejects@),
        ensures
            final(word).syllable_rejects@ == old(word).syllable_rejects@ + matched_rejects(
                self.rejects.syllable_rejects@,
                old(word).effective_skeleton(),
            ),
            final(word).syllables == old(word).syllables,
            final(word).graphemes == old(word).graphemes,
            final(word).syllable_rewrite_history == old(word).syllable_rewrite_history,
            final(word).grapheme_rewrite_history == old(word).grapheme_rewrite_history,
            final(word).grapheme_rejects == old(word).grapheme_rejects,
            final(word).syllable_count == old(word).syllable_count,
    {
        let text = get_word_syllables(word);
        run_reject_marks(&self.rejects.syllable_rejects, &text, &mut word.syllable_rejects);
    }

    /// Records every grapheme reject pattern that matches the word's current
    /// effective grapheme string, in pattern order, without short-circuiting.
    pub fn mark_grapheme_rejects(&self, word: &mut Word)
        requires
            reject_patterns_ok(self.rejects.grapheme_rejects@),
        ensures
            final(word).grapheme_rejects@ == old(word).grapheme_rejects@ + matched_rejects(
                self.rejects.grapheme_rejects@,
                old(word).effective_graphemes(),
            ),
            final(word).syllables == old(word).syllables,
            final(word).graphemes == old(word).graphemes,
            final(word).syllable_rewrite_history == old(word).syllable_rewrite_history,
            final(word).grapheme_rewrite_history == old(word).grapheme_rewrite_history,
            final(word).syllable_rejects == old(word).syllable_rejects,
            final(word).syllable_count == old(word).syllable_count,
    {
        let text = get_word_graphemes(word);
        run_reject_marks(&self.rejects.grapheme_rejects, &text, &mut word.grapheme_rejects);
    }

    /// Realizes the word's effective skeleton: each symbol unit is mapped to
    /// one grapheme drawn from the group registered under it, and the draws
    /// are concatenated in order into the word's grapheme string.  A unit
    /// without a group, or with an unusable group, is a fatal error and
    /// leaves the word untouched.
    pub fn generate_graphemes(&self, rng: &mut RandomSource, word: &mut Word) -> (r: Result<
        (),
        GenError,
    >)
        ensures
            r is Ok <==> all_units_realizable(
                self.graphemes@,
                units_of(old(word).effective_skeleton()),
            ),
            r is Ok ==> is_realization(
                self.graphemes@,
                units_of(old(word).effective_skeleton()),
                final(word).graphemes@,
            ),
            r is Ok ==> ({
                &&& final(word).syllables == old(word).syllables
                &&& final(word).syllable_rewrite_history == old(word).syllable_rewrite_history
                &&& final(word).grapheme_rewrite_history == old(word).grapheme_rewrite_history
                &&& final(word).syllable_rejects == old(word).syllable_rejects
                &&& final(word).grapheme_rejects == old(word).grapheme_rejects
                &&& final(word).syllable_count == old(word).syllable_count
            }),
            r is Err ==> *final(word) == *old(word),
            r matches Err(e) ==> exists|k: int|
                realization_error_at(
                    self.graphemes@,
                    units_of(old(word).effective_skeleton()),
                    k,
                    e,
                ),
    {
        let skeleton = get_word_syllables(word);
        let units = split_units(skeleton.as_str());
        let ghost units_v = units_of(old(word).effective_skeleton());
        let mut out = String::new();
        let mut i: usize = 0;
        proof {
            assert(units_v.take(0) =~= Seq::<Seq<char>>::empty());
            assert(is_realization(self.graphemes@, units_v.take(0), out@));
        }
        while i < units.len()
            invariant
                i <= units.len(),
                units_v == units_of(old(word).effective_skeleton()),
                units@.map_values(|u: String| u@) == units_v,
                units_v.len() == units@.len(),
                is_realization(self.graphemes@, units_v.take(i as int), out@),
                forall|j: int|
                    0 <= j < i ==> unit_realizable(self.graphemes@, #[trigger] units_v[j]),
                *word == *old(word),
            decreases units.len() - i,
        {
            let unit = &units[i];
            proof {
                assert(unit@ == units_v[i as int]);
            }
            match syllable_element_to_random_grapheme(rng, &self.graphemes, unit) {
                Ok(g) => {
                    proof {
                        lemma_realization_snoc(
                            self.graphemes@,
                            units_v.take(i as int),
                            out@,
                            units_v[i as int],
                            g@,
                        );
                        assert(units_v.take(i as int).push(units_v[i as int]) =~= units_v.take(
                            i as int + 1,
                        ));
                    }
                    out.append(g.as_str());
                },
                Err(e) => {
                    proof {
                        assert(realization_error_at(self.graphemes@, units_v, i as int, e));
                    }
                    return Err(e);
                },
            }
            i = i + 1;
        }
        proof {
            assert(units_v.take(units_v.len() as int) =~= units_v);
        }
        word.graphemes = out;
        Ok(())
    }
}

} // verus!
