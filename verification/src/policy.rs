//! The decoding policy: the step function that the language model calls
//! before each token, with the token history so far, to learn which token
//! ids it may emit next.

use vstd::prelude::*;
use crate::boundary::{classify, counts_of_nothing, paragraph_count, sentence_count};
use crate::matcher::{candidate_tokens, candidates, candidates_hold_end, token_sequences};
use crate::tokens::{END_ID, VOCABULARY_END};

verus! {

/// What one request asks of the generation: bound to one generation call and
/// never changed during it.
#[derive(Clone, Debug)]
pub struct DecodingPolicy {
    /// The number of tokens of the tokenized prompt.
    pub prompt_len: usize,
    /// The sentence cap, where one was requested.
    pub generate_sentences: Option<usize>,
    /// The paragraph cap, where one was requested.
    pub generate_paragraphs: Option<usize>,
    /// The context snippets, each tokenized on its own, where any were given.
    pub context_ids: Option<Vec<Vec<i64>>>,
}

/// The unconstrained vocabulary: every id below the reserved tail, in order.
pub open spec fn vocabulary() -> Seq<i64> {
    Seq::new(VOCABULARY_END as nat, |i: int| i as i64)
}

/// Lists the unconstrained vocabulary.
pub fn full_vocabulary() -> (ids: Vec<i64>)
    ensures
        ids@ == vocabulary(),
{
    let mut ids: Vec<i64> = Vec::new();
    let mut id: i64 = 0;
    while id < VOCABULARY_END
        invariant
            0 <= id <= VOCABULARY_END,
            ids@ =~= Seq::new(id as nat, |i: int| i as i64),
        decreases VOCABULARY_END - id,
    {
        ids.push(id);
        id += 1;
    }
    ids
}

/// Binds a policy to one request: the token length of its prompt, its caps
/// and its tokenized context snippets.
pub fn allowed_tokens_factory(
    prompt_len: usize,
    generated_sentences: Option<usize>,
    generated_paragraphs: Option<usize>,
    context_ids: Option<Vec<Vec<i64>>>,
) -> (policy: DecodingPolicy)
    ensures
        policy.prompt_len == prompt_len,
        policy.generate_sentences == generated_sentences,
        policy.generate_paragraphs == generated_paragraphs,
        policy.context_ids == context_ids,
{
    DecodingPolicy {
        prompt_len,
        generate_sentences: generated_sentences,
        generate_paragraphs: generated_paragraphs,
        context_ids,
    }
}

impl DecodingPolicy {
    /// The generated suffix of a token history: what lies behind the
    /// tokenized prompt.
    pub open spec fn generated(&self, previous: Seq<i64>) -> Seq<i64> {
        previous.skip(self.prompt_len as int)
    }

    /// Whether a cap is reached by a text whose cleaned form has the token
    /// ids `cleaned`.
    pub open spec fn cap_reached(&self, cleaned: Seq<i64>) -> bool {
        ||| self.generate_sentences matches Some(cap) && sentence_count(cleaned) == cap
        ||| self.generate_paragraphs matches Some(cap) && paragraph_count(cleaned) == cap
    }

    /// The token ids allowed next, after the token history `previous`, where
    /// the cleaned form of the generated text has the token ids `cleaned`.
    /// A reached cap comes first and leaves the end token alone; then the
    /// context snippets, where there are any; else the whole vocabulary.
    pub open spec fn allowed(&self, previous: Seq<i64>, cleaned: Seq<i64>) -> Seq<i64> {
        if self.cap_reached(cleaned) {
            seq![END_ID]
        } else {
            match self.context_ids {
                Some(context) => candidate_tokens(token_sequences(context@), self.generated(previous)),
                None => vocabulary(),
            }
        }
    }

    /// Cuts the generated suffix out of a token history.
    pub fn generated_ids<'a>(&self, previous_token_ids: &'a [i64]) -> (generated: &'a [i64])
        requires
            self.prompt_len <= previous_token_ids@.len(),
        ensures
            generated@ == self.generated(previous_token_ids@),
    {
        let generated = &previous_token_ids[self.prompt_len..previous_token_ids.len()];
        assert(generated@ =~= self.generated(previous_token_ids@));
        generated
    }

    /// One decoding step: the token ids that the model may emit next, after
    /// the token history `previous_token_ids`, where `cleaned_ids` are the
    /// token ids of the cleaned form of the text generated so far.
    pub fn allowed_tokens(&self, previous_token_ids: &[i64], cleaned_ids: &[i64]) -> (allowed: Vec<i64>)
        requires
            self.prompt_len <= previous_token_ids@.len(),
        ensures
            allowed@ == self.allowed(previous_token_ids@, cleaned_ids@),
    {
        let counts = classify(cleaned_ids);
        if let Some(cap) = self.generate_sentences {
            if counts.sentence_count == cap {
                return vec![END_ID];
            }
        }
        if let Some(cap) = self.generate_paragraphs {
            if counts.paragraph_count == cap {
                return vec![END_ID];
            }
        }
        match &self.context_ids {
            Some(context) => candidates(context, self.generated_ids(previous_token_ids)),
            None => full_vocabulary(),
        }
    }
}

/// A reached sentence cap forces the end: once the cleaned text holds as many
/// sentence boundaries as the cap says, the end token alone is allowed,
/// whatever the context snippets are.
pub proof fn sentence_cap_forces_end(
    policy: DecodingPolicy,
    cap: usize,
    previous: Seq<i64>,
    cleaned: Seq<i64>,
)
    requires
        policy.generate_sentences == Some(cap),
        sentence_count(cleaned) == cap,
    ensures
        policy.allowed(previous, cleaned) == seq![END_ID],
{
}

/// A reached paragraph cap forces the end, whatever the context snippets
/// are.
pub proof fn paragraph_cap_forces_end(
    policy: DecodingPolicy,
    cap: usize,
    previous: Seq<i64>,
    cleaned: Seq<i64>,
)
    requires
        policy.generate_paragraphs == Some(cap),
        paragraph_count(cleaned) == cap,
    ensures
        policy.allowed(previous, cleaned) == seq![END_ID],
{
}

/// A cap of zero stops generation at the first step: before any token is
/// generated the text holds no boundary, which is what the cap asks for.
pub proof fn zero_cap_ends_at_once(policy: DecodingPolicy, previous: Seq<i64>)
    requires
        policy.generate_sentences == Some(0usize) || policy.generate_paragraphs == Some(0usize),
    ensures
        policy.allowed(previous, Seq::<i64>::empty()) == seq![END_ID],
{
    counts_of_nothing();
}

/// What a step allows is the end token alone, or what the context snippets
/// offer with the end token, or, without snippets, the whole vocabulary.
/// With snippets the end token is always allowed.
pub proof fn allowed_is_end_or_grounded_or_all(policy: DecodingPolicy, previous: Seq<i64>, cleaned: Seq<i64>)
    ensures
        policy.allowed(previous, cleaned) == seq![END_ID] || match policy.context_ids {
            Some(context) => policy.allowed(previous, cleaned) == candidate_tokens(
                token_sequences(context@),
                policy.generated(previous),
            ),
            None => policy.allowed(previous, cleaned) == vocabulary(),
        },
        policy.context_ids is Some ==> policy.allowed(previous, cleaned).contains(END_ID),
{
    if policy.cap_reached(cleaned) {
        assert(seq![END_ID][0] == END_ID);
    } else if let Some(context) = policy.context_ids {
        candidates_hold_end(token_sequences(context@), policy.generated(previous));
    }
}

/// Every id of the unconstrained vocabulary lies below the reserved tail,
/// and each such id is in it: the end token is not.
pub proof fn vocabulary_is_below_reserved_tail(id: i64)
    ensures
        vocabulary().contains(id) <==> 0 <= id < VOCABULARY_END,
        !vocabulary().contains(END_ID),
{
    if 0 <= id < VOCABULARY_END {
        assert(vocabulary()[id as int] == id);
    }
}

} // verus!
