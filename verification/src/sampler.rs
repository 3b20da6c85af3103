use vstd::prelude::*;

use crate::errors::GenError;
use crate::rng::RandomSource;

verus! {

/// One candidate of a weighted set: a value and its selection weight.
pub struct WeightedItem {
    pub value: String,
    pub weight: u32,
}

/// The sum of the weights of a candidate set.
pub open spec fn total_weight(items: Seq<WeightedItem>) -> int
    decreases items.len(),
{
    if items.len() == 0 {
        0
    } else {
        items[0].weight + total_weight(items.skip(1))
    }
}

/// `s` is a value that a weighted draw from `items` may return: it stands at
/// some index whose weight is positive.
pub open spec fn valid_draw(items: Seq<WeightedItem>, s: Seq<char>) -> bool {
    exists|i: int|
        0 <= i < items.len() && #[trigger] items[i].weight > 0 && s == items[i].value@
}

pub proof fn lemma_total_weight_nonneg(items: Seq<WeightedItem>)
    ensures
        total_weight(items) >= 0,
    decreases items.len(),
{
    if items.len() > 0 {
        lemma_total_weight_nonneg(items.skip(1));
    }
}

pub proof fn lemma_total_weight_concat(a: Seq<WeightedItem>, b: Seq<WeightedItem>)
    ensures
        total_weight(a + b) == total_weight(a) + total_weight(b),
    decreases a.len(),
{
    if a.len() == 0 {
        assert(a + b =~= b);
    } else {
        assert((a + b).skip(1) =~= a.skip(1) + b);
        lemma_total_weight_concat(a.skip(1), b);
    }
}

/// Extending a prefix sum by one item adds that item's weight, and a prefix
/// sum never exceeds the whole sum.
pub proof fn lemma_total_weight_take_next(items: Seq<WeightedItem>, i: int)
    requires
        0 <= i < items.len(),
    ensures
        total_weight(items.take(i + 1)) == total_weight(items.take(i)) + items[i].weight,
        total_weight(items.take(i + 1)) <= total_weight(items),
{
    let unit = seq![items[i]];
    assert(items.take(i + 1) =~= items.take(i) + unit);
    lemma_total_weight_concat(items.take(i), unit);
    assert(total_weight(unit) == items[i].weight) by {
        assert(unit.skip(1) =~= Seq::<WeightedItem>::empty());
        assert(total_weight(Seq::<WeightedItem>::empty()) == 0);
    }
    assert(items =~= items.take(i + 1) + items.skip(i + 1));
    lemma_total_weight_concat(items.take(i + 1), items.skip(i + 1));
    lemma_total_weight_nonneg(items.skip(i + 1));
}

/// The sum of all weights of `values`, exact: a `u128` cannot overflow here,
/// since each weight is a `u32`.
pub(crate) fn sum_weights(values: &Vec<WeightedItem>) -> (t: u128)
    ensures
        t == total_weight(values@),
{
    let mut t: u128 = 0;
    let mut i: usize = 0;
    while i < values.len()
        invariant
            i <= values.len(),
            t == total_weight(values@.take(i as int)),
            t <= i * (u32::MAX as int),
        decreases values.len() - i,
    {
        proof {
            lemma_total_weight_take_next(values@, i as int);
        }
        t = t + values[i].weight as u128;
        i = i + 1;
    }
    proof {
        assert(values@.take(values@.len() as int) =~= values@);
    }
    t
}

/// Draws one value from a weighted candidate set: a uniform roll over the
/// cumulative-weight range `[0, total)`, then a walk to the interval that
/// contains the roll.  Each value is returned with probability proportional
/// to its weight.  The set itself is never mutated, so every call draws from
/// the same immutable candidates.
pub fn get_random_from_weighted(rng: &mut RandomSource, values: &Vec<WeightedItem>) -> (r: Result<
    String,
    GenError,
>)
    ensures
        r is Ok <==> total_weight(values@) > 0,
        r matches Ok(s) ==> valid_draw(values@, s@),
        r matches Err(e) ==> e == GenError::EmptyCandidateSet,
{
    let total = sum_weights(values);
    if total == 0 {
        return Err(GenError::EmptyCandidateSet);
    }
    let roll = rng.gen_below(total);
    let mut i: usize = 0;
    let mut acc: u128 = 0;
    while i < values.len()
        invariant
            i <= values.len(),
            acc == total_weight(values@.take(i as int)),
            acc <= roll,
            roll < total_weight(values@),
            total_weight(values@) <= u128::MAX,
        decreases values.len() - i,
    {
        proof {
            lemma_total_weight_take_next(values@, i as int);
        }
        let w = values[i].weight as u128;
        if roll < acc + w {
            proof {
                assert(values@[i as int].weight > 0);
            }
            return Ok(values[i].value.clone());
        }
        acc = acc + w;
        i = i + 1;
    }
    proof {
        assert(values@.take(values@.len() as int) =~= values@);
        assert(false);
    }
    Err(GenError::EmptyCandidateSet)
}

} // verus!
