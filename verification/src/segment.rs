use vstd::prelude::*;

verus! {

/// The decomposition of a skeleton string into its symbol units.
pub uninterp spec fn units_of(s: Seq<char>) -> Seq<Seq<char>>;

/// Relies on unicode-segmentation's `UnicodeSegmentation::graphemes` (legacy
/// grapheme clusters): the split of a string into its units depends on the
/// string alone.
#[verifier::external_body]
pub(crate) fn split_units(s: &str) -> (r: Vec<String>)
    ensures
        r@.map_values(|u: String| u@) == units_of(s@),
{
    unicode_segmentation::UnicodeSegmentation::graphemes(s, false).map(
        |u: &str| u.to_owned(),
    ).collect()
}

} // verus!
