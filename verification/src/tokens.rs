//! Reserved token ids of the target vocabulary.

use vstd::prelude::*;

verus! {

/// The token that tells the model to stop generating.
pub const END_ID: i64 = 50256;

/// One past the last id of the unconstrained vocabulary: the ids from here on
/// are reserved and are never offered by an unconstrained step.
pub const VOCABULARY_END: i64 = 50255;

/// Sentence boundary: the period.
pub const PERIOD_ID: i64 = 13;

/// Sentence boundary: the second sentence-closing mark.
pub const SENTENCE_MARK_ID: i64 = 30;

/// Sentence boundary: the first id of the vocabulary.
pub const NULL_ID: i64 = 0;

/// Paragraph boundary: a single newline.
pub const NEWLINE_ID: i64 = 198;

/// Paragraph boundary: a double newline.
pub const DOUBLE_NEWLINE_ID: i64 = 628;

/// Whether `id` marks the end of a sentence.
pub open spec fn sentence_boundary(id: i64) -> bool {
    id == PERIOD_ID || id == SENTENCE_MARK_ID || id == NULL_ID
}

/// Whether `id` marks the end of a paragraph.
pub open spec fn paragraph_boundary(id: i64) -> bool {
    id == NEWLINE_ID || id == DOUBLE_NEWLINE_ID
}

/// Tells whether `id` marks the end of a sentence.
pub fn is_sentence_boundary(id: i64) -> (b: bool)
    ensures
        b == sentence_boundary(id),
{
    id == PERIOD_ID || id == SENTENCE_MARK_ID || id == NULL_ID
}

/// Tells whether `id` marks the end of a paragraph.
pub fn is_paragraph_boundary(id: i64) -> (b: bool)
    ensures
        b == paragraph_boundary(id),
{
    id == NEWLINE_ID || id == DOUBLE_NEWLINE_ID
}

} // verus!
