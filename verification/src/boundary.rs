//! Structural limits: how many sentences and paragraphs the generated text
//! holds, counted on the token ids of its cleaned form.

use vstd::prelude::*;
use crate::tokens::{is_paragraph_boundary, is_sentence_boundary, paragraph_boundary, sentence_boundary};

verus! {

/// How many sentence and paragraph boundaries a text holds.
#[derive(Clone, Copy, Debug, PartialEq, Eq, Structural)]
pub struct BoundaryCounts {
    pub sentence_count: usize,
    pub paragraph_count: usize,
}

/// The number of sentence boundary tokens among `ids`.
pub open spec fn sentence_count(ids: Seq<i64>) -> nat {
    ids.filter(|id: i64| sentence_boundary(id)).len()
}

/// The number of paragraph boundary tokens among `ids`.
pub open spec fn paragraph_count(ids: Seq<i64>) -> nat {
    ids.filter(|id: i64| paragraph_boundary(id)).len()
}

/// One more token adds one to the sentence count when it is a sentence
/// boundary, and nothing otherwise.
pub proof fn sentence_count_push(ids: Seq<i64>, id: i64)
    ensures
        sentence_count(ids.push(id)) == sentence_count(ids) + if sentence_boundary(id) {
            1nat
        } else {
            0nat
        },
{
    reveal(Seq::filter);
    assert(ids.push(id).drop_last() =~= ids);
}

/// One more token adds one to the paragraph count when it is a paragraph
/// boundary, and nothing otherwise.
pub proof fn paragraph_count_push(ids: Seq<i64>, id: i64)
    ensures
        paragraph_count(ids.push(id)) == paragraph_count(ids) + if paragraph_boundary(id) {
            1nat
        } else {
            0nat
        },
{
    reveal(Seq::filter);
    assert(ids.push(id).drop_last() =~= ids);
}

/// No token, no boundary.
pub proof fn counts_of_nothing()
    ensures
        sentence_count(Seq::<i64>::empty()) == 0,
        paragraph_count(Seq::<i64>::empty()) == 0,
{
    reveal(Seq::filter);
}

/// `counts` are the boundary counts of `ids`.
pub open spec fn classified(ids: Seq<i64>, counts: BoundaryCounts) -> bool {
    &&& counts.sentence_count == sentence_count(ids)
    &&& counts.paragraph_count == paragraph_count(ids)
}

/// Classification depends on the text alone: whenever the same ids are
/// classified again, the counts are the same.
pub proof fn classification_repeats(ids: Seq<i64>, first: BoundaryCounts, second: BoundaryCounts)
    requires
        classified(ids, first),
        classified(ids, second),
    ensures
        first == second,
{
}

/// Counts the sentence and paragraph boundaries of a generated text, given as
/// the token ids of its cleaned form.
pub fn classify(cleaned_ids: &[i64]) -> (counts: BoundaryCounts)
    ensures
        classified(cleaned_ids@, counts),
{
    let n: usize = cleaned_ids.len();
    let mut sentences: usize = 0;
    let mut paragraphs: usize = 0;
    let mut i: usize = 0;
    proof {
        counts_of_nothing();
        assert(cleaned_ids@.take(0) =~= Seq::<i64>::empty());
    }
    while i < n
        invariant
            n == cleaned_ids@.len(),
            i <= n,
            sentences <= i,
            paragraphs <= i,
            sentences == sentence_count(cleaned_ids@.take(i as int)),
            paragraphs == paragraph_count(cleaned_ids@.take(i as int)),
        decreases n - i,
    {
        let id: i64 = cleaned_ids[i];
        proof {
            assert(cleaned_ids@.take(i + 1) =~= cleaned_ids@.take(i as int).push(id));
            sentence_count_push(cleaned_ids@.take(i as int), id);
            paragraph_count_push(cleaned_ids@.take(i as int), id);
        }
        if is_sentence_boundary(id) {
            sentences += 1;
        }
        if is_paragraph_boundary(id) {
            paragraphs += 1;
        }
        i += 1;
    }
    assert(cleaned_ids@.take(n as int) =~= cleaned_ids@);
    BoundaryCounts { sentence_count: sentences, paragraph_count: paragraphs }
}

} // verus!
