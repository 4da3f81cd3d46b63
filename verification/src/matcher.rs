//! Grounding in context snippets: which tokens continue what has been
//! generated so far along a path that some snippet already holds.

use vstd::prelude::*;
use crate::tokens::END_ID;

verus! {

/// `pattern` stands in `context` as a contiguous run that starts at `at`.
pub open spec fn occurs_at(context: Seq<i64>, pattern: Seq<i64>, at: int) -> bool {
    &&& 0 <= at
    &&& at + pattern.len() <= context.len()
    &&& context.subrange(at, at + pattern.len()) == pattern
}

/// `at` is the first place at or after `from` where `pattern` stands in
/// `context`.
pub open spec fn first_occurrence(context: Seq<i64>, pattern: Seq<i64>, from: int, at: int) -> bool {
    &&& from <= at
    &&& occurs_at(context, pattern, at)
    &&& forall|j: int| from <= j < at ==> !occurs_at(context, pattern, j)
}

/// `pattern` stands nowhere in `context` at or after `from`.
pub open spec fn no_occurrence(context: Seq<i64>, pattern: Seq<i64>, from: int) -> bool {
    forall|j: int| from <= j ==> !occurs_at(context, pattern, j)
}

/// Tells whether `needle` stands in `haystack` at `at`.
fn matches_at(haystack: &[i64], needle: &[i64], at: usize) -> (b: bool)
    requires
        at + needle@.len() <= haystack@.len(),
    ensures
        b == occurs_at(haystack@, needle@, at as int),
{
    let n: usize = needle.len();
    let mut k: usize = 0;
    while k < n
        invariant
            n == needle@.len(),
            k <= n,
            at + n <= haystack.len(),
            forall|j: int| 0 <= j < k ==> haystack@[at + j] == needle@[j],
        decreases n - k,
    {
        if haystack[at + k] != needle[k] {
            assert(haystack@.subrange(at as int, at + needle@.len())[k as int] == haystack@[at + k]);
            return false;
        }
        k += 1;
    }
    assert(haystack@.subrange(at as int, at + needle@.len()) =~= needle@);
    true
}

/// Finds the first place at or after `from` where `needle` stands in
/// `haystack` as a contiguous run.
pub fn find_subsequence_from(haystack: &[i64], needle: &[i64], from: usize) -> (found: Option<usize>)
    ensures
        match found {
            Some(at) => first_occurrence(haystack@, needle@, from as int, at as int),
            None => no_occurrence(haystack@, needle@, from as int),
        },
{
    let n: usize = needle.len();
    let h: usize = haystack.len();
    if n > h || from > h - n {
        return None;
    }
    let last: usize = h - n;
    let mut at: usize = from;
    loop
        invariant
            n == needle@.len(),
            h == haystack@.len(),
            n <= h,
            last == h - n,
            from <= at <= last,
            forall|j: int| from <= j < at ==> !occurs_at(haystack@, needle@, j),
        decreases last - at,
    {
        if matches_at(haystack, needle, at) {
            return Some(at);
        }
        if at == last {
            return None;
        }
        at += 1;
    }
}

/// Finds the first place where `needle` stands in `haystack` as a contiguous
/// run. An empty `needle` stands at the start of every `haystack`.
pub fn find_subsequence(haystack: &[i64], needle: &[i64]) -> (found: Option<usize>)
    ensures
        match found {
            Some(at) => first_occurrence(haystack@, needle@, 0, at as int),
            None => no_occurrence(haystack@, needle@, 0),
        },
{
    find_subsequence_from(haystack, needle, 0)
}

/// The tokens that follow the occurrences of `generated` in `context` which a
/// scan from `from` meets, in the order in which it meets them. The scan goes
/// from left to right and, after an occurrence, goes on behind it: occurrences
/// that overlap an earlier one are not met. An empty `generated` has none.
pub open spec fn continuations_from(context: Seq<i64>, generated: Seq<i64>, from: int) -> Seq<i64>
    decreases context.len() - from,
{
    if generated.len() == 0 || from < 0 || from + generated.len() > context.len() {
        Seq::<i64>::empty()
    } else if occurs_at(context, generated, from) {
        let end = from + generated.len();
        if end < context.len() {
            seq![context[end]] + continuations_from(context, generated, end)
        } else {
            Seq::<i64>::empty()
        }
    } else {
        continuations_from(context, generated, from + 1)
    }
}

/// What one context snippet offers as the next token: all of its tokens while
/// nothing has been generated, and after that the tokens that follow the
/// occurrences of `generated` in it.
pub open spec fn context_continuations(context: Seq<i64>, generated: Seq<i64>) -> Seq<i64> {
    if generated.len() == 0 {
        context
    } else {
        continuations_from(context, generated, 0)
    }
}

/// What all the context snippets offer, snippet after snippet.
pub open spec fn all_continuations(contexts: Seq<Seq<i64>>, generated: Seq<i64>) -> Seq<i64>
    decreases contexts.len(),
{
    if contexts.len() == 0 {
        Seq::<i64>::empty()
    } else {
        all_continuations(contexts.drop_last(), generated) + context_continuations(
            contexts.last(),
            generated,
        )
    }
}

/// The tokens allowed next under grounding: what the snippets offer, and
/// then the end token, so that generation can always stop.
pub open spec fn candidate_tokens(contexts: Seq<Seq<i64>>, generated: Seq<i64>) -> Seq<i64> {
    all_continuations(contexts, generated).push(END_ID)
}

/// The snippets as sequences of token ids.
pub open spec fn token_sequences(contexts: Seq<Vec<i64>>) -> Seq<Seq<i64>> {
    Seq::new(contexts.len(), |k: int| contexts[k]@)
}

/// A scan that starts before the first occurrence meets what a scan from that
/// occurrence meets.
proof fn lemma_scan_skips_to_occurrence(context: Seq<i64>, generated: Seq<i64>, from: int, at: int)
    requires
        generated.len() > 0,
        0 <= from <= at,
        forall|j: int| from <= j < at ==> !occurs_at(context, generated, j),
    ensures
        continuations_from(context, generated, from) == continuations_from(context, generated, at),
    decreases at - from,
{
    if from < at {
        lemma_scan_skips_to_occurrence(context, generated, from + 1, at);
    }
}

/// A scan over a stretch without occurrence meets nothing.
proof fn lemma_scan_without_occurrence(context: Seq<i64>, generated: Seq<i64>, from: int)
    requires
        0 <= from,
        no_occurrence(context, generated, from),
    ensures
        continuations_from(context, generated, from) == Seq::<i64>::empty(),
    decreases context.len() - from,
{
    if generated.len() > 0 && from + generated.len() <= context.len() {
        lemma_scan_without_occurrence(context, generated, from + 1);
    }
}

/// Collects what one context snippet offers as the next token.
pub fn continuations(context: &[i64], generated: &[i64]) -> (found: Vec<i64>)
    ensures
        found@ == context_continuations(context@, generated@),
{
    let n: usize = generated.len();
    if n == 0 {
        return vstd::slice::slice_to_vec(context);
    }
    let h: usize = context.len();
    let mut found: Vec<i64> = Vec::new();
    let mut from: usize = 0;
    loop
        invariant
            n == generated@.len(),
            h == context@.len(),
            n > 0,
            from <= h,
            found@ + continuations_from(context@, generated@, from as int) == continuations_from(
                context@,
                generated@,
                0,
            ),
        decreases context@.len() - from,
    {
        match find_subsequence_from(context, generated, from) {
            None => {
                proof {
                    lemma_scan_without_occurrence(context@, generated@, from as int);
                    assert(found@ + Seq::<i64>::empty() =~= found@);
                }
                return found;
            },
            Some(at) => {
                let end: usize = at + n;
                proof {
                    lemma_scan_skips_to_occurrence(context@, generated@, from as int, at as int);
                }
                let ghost before = found@;
                if end < h {
                    found.push(context[end]);
                    assert(found@ + continuations_from(context@, generated@, end as int) =~= before
                        + continuations_from(context@, generated@, at as int));
                } else {
                    assert(continuations_from(context@, generated@, end as int) =~= Seq::<i64>::empty());
                }
                from = end;
            },
        }
    }
}

/// Collects the tokens allowed next under grounding in `context_sequences`,
/// after `generated_suffix`: what each snippet offers, snippet after snippet,
/// and then the end token.
pub fn candidates(context_sequences: &Vec<Vec<i64>>, generated_suffix: &[i64]) -> (allowed: Vec<i64>)
    ensures
        allowed@ == candidate_tokens(token_sequences(context_sequences@), generated_suffix@),
{
    let ghost contexts = token_sequences(context_sequences@);
    let mut allowed: Vec<i64> = Vec::new();
    let mut k: usize = 0;
    while k < context_sequences.len()
        invariant
            k <= context_sequences@.len(),
            contexts == token_sequences(context_sequences@),
            allowed@ == all_continuations(contexts.take(k as int), generated_suffix@),
        decreases context_sequences@.len() - k,
    {
        let mut found = continuations(context_sequences[k].as_slice(), generated_suffix);
        proof {
            let next = contexts.take(k + 1);
            assert(next.drop_last() =~= contexts.take(k as int));
            assert(next.last() == context_sequences@[k as int]@);
        }
        allowed.append(&mut found);
        k += 1;
    }
    assert(contexts.take(k as int) =~= contexts);
    allowed.push(END_ID);
    allowed
}

/// `generated` followed by `token` stands somewhere in `context`: to go on
/// with `token` is to stay on a path that the snippet holds.
pub open spec fn grounded_in(context: Seq<i64>, generated: Seq<i64>, token: i64) -> bool {
    exists|at: int| occurs_at(context, generated.push(token), at)
}

/// A token is in a concatenation when it is in one of the two parts.
proof fn lemma_contains_concat(left: Seq<i64>, right: Seq<i64>, token: i64)
    ensures
        (left + right).contains(token) <==> left.contains(token) || right.contains(token),
{
    let whole = left + right;
    if whole.contains(token) {
        let i = choose|i: int| 0 <= i < whole.len() && whole[i] == token;
        if i < left.len() {
            assert(left[i] == token);
        } else {
            assert(right[i - left.len()] == token);
        }
    }
    if left.contains(token) {
        let i = choose|i: int| 0 <= i < left.len() && left[i] == token;
        assert(whole[i] == token);
    }
    if right.contains(token) {
        let i = choose|i: int| 0 <= i < right.len() && right[i] == token;
        assert(whole[left.len() + i] == token);
    }
}

/// What the snippets offer together is what one of them offers.
proof fn lemma_all_continuations_contains(contexts: Seq<Seq<i64>>, generated: Seq<i64>, token: i64)
    ensures
        all_continuations(contexts, generated).contains(token) <==> exists|k: int|
            0 <= k < contexts.len() && #[trigger] context_continuations(
                contexts[k],
                generated,
            ).contains(token),
    decreases contexts.len(),
{
    if contexts.len() > 0 {
        let front = contexts.drop_last();
        lemma_all_continuations_contains(front, generated, token);
        lemma_contains_concat(
            all_continuations(front, generated),
            context_continuations(contexts.last(), generated),
            token,
        );
        if all_continuations(contexts, generated).contains(token) {
            if all_continuations(front, generated).contains(token) {
                let k = choose|k: int|
                    0 <= k < front.len() && #[trigger] context_continuations(
                        front[k],
                        generated,
                    ).contains(token);
                assert(contexts[k] == front[k]);
            } else {
                assert(contexts[contexts.len() - 1] == contexts.last());
            }
        }
        if exists|k: int|
            0 <= k < contexts.len() && #[trigger] context_continuations(
                contexts[k],
                generated,
            ).contains(token) {
            let k = choose|k: int|
                0 <= k < contexts.len() && #[trigger] context_continuations(
                    contexts[k],
                    generated,
                ).contains(token);
            if k < front.len() {
                assert(front[k] == contexts[k]);
            }
        }
    }
}

/// The token behind an occurrence of `generated` continues `generated` on a
/// path of the snippet.
proof fn lemma_follower_is_grounded(context: Seq<i64>, generated: Seq<i64>, at: int)
    requires
        occurs_at(context, generated, at),
        at + generated.len() < context.len(),
    ensures
        occurs_at(context, generated.push(context[at + generated.len()]), at),
        grounded_in(context, generated, context[at + generated.len()]),
{
    let token = context[at + generated.len()];
    let longer = generated.push(token);
    assert(context.subrange(at, at + longer.len()) =~= longer) by {
        assert forall|i: int| 0 <= i < longer.len() implies context.subrange(
            at,
            at + longer.len(),
        )[i] == longer[i] by {
            if i < generated.len() {
                assert(context.subrange(at, at + generated.len())[i] == generated[i]);
            }
        }
    }
}

/// Whatever a scan meets continues `generated` on a path of the snippet.
proof fn lemma_scan_is_grounded(context: Seq<i64>, generated: Seq<i64>, from: int, token: i64)
    requires
        continuations_from(context, generated, from).contains(token),
    ensures
        grounded_in(context, generated, token),
    decreases context.len() - from,
{
    if generated.len() == 0 || from < 0 || from + generated.len() > context.len() {
    } else if occurs_at(context, generated, from) {
        let end = from + generated.len();
        if end < context.len() {
            lemma_contains_concat(
                seq![context[end]],
                continuations_from(context, generated, end),
                token,
            );
            if seq![context[end]].contains(token) {
                lemma_follower_is_grounded(context, generated, from);
            } else {
                lemma_scan_is_grounded(context, generated, end, token);
            }
        }
    } else {
        lemma_scan_is_grounded(context, generated, from + 1, token);
    }
}

/// Grounding: every token that the matcher allows is the end token, or
/// continues what was generated along a path that one of the snippets holds.
pub proof fn candidates_are_grounded(contexts: Seq<Seq<i64>>, generated: Seq<i64>, token: i64)
    requires
        candidate_tokens(contexts, generated).contains(token),
    ensures
        token == END_ID || exists|k: int|
            0 <= k < contexts.len() && #[trigger] grounded_in(contexts[k], generated, token),
{
    let offered = all_continuations(contexts, generated);
    lemma_contains_concat(offered, seq![END_ID], token);
    assert(candidate_tokens(contexts, generated) =~= offered + seq![END_ID]);
    if token != END_ID {
        assert(offered.contains(token));
        lemma_all_continuations_contains(contexts, generated, token);
        let k = choose|k: int|
            0 <= k < contexts.len() && #[trigger] context_continuations(
                contexts[k],
                generated,
            ).contains(token);
        let context = contexts[k];
        if generated.len() == 0 {
            let i = choose|i: int| 0 <= i < context.len() && context[i] == token;
            assert(occurs_at(context, generated, i)) by {
                assert(context.subrange(i, i + generated.len()) =~= generated);
            }
            lemma_follower_is_grounded(context, generated, i);
        } else {
            lemma_scan_is_grounded(context, generated, 0, token);
        }
        assert(grounded_in(contexts[k], generated, token));
    }
}

/// The end token is always allowed, so that generation can stop even where
/// no snippet offers a continuation.
pub proof fn candidates_hold_end(contexts: Seq<Seq<i64>>, generated: Seq<i64>)
    ensures
        candidate_tokens(contexts, generated).contains(END_ID),
{
    let allowed = candidate_tokens(contexts, generated);
    assert(allowed[allowed.len() - 1] == END_ID);
}

/// While nothing has been generated, the allowed tokens are the tokens of the
/// snippets, all of them, and the end token.
pub proof fn empty_suffix_offers_every_context_token(contexts: Seq<Seq<i64>>, token: i64)
    ensures
        candidate_tokens(contexts, Seq::<i64>::empty()).contains(token) <==> token == END_ID
            || exists|k: int| 0 <= k < contexts.len() && #[trigger] contexts[k].contains(token),
{
    let generated = Seq::<i64>::empty();
    let offered = all_continuations(contexts, generated);
    lemma_contains_concat(offered, seq![END_ID], token);
    assert(candidate_tokens(contexts, generated) =~= offered + seq![END_ID]);
    assert(seq![END_ID].contains(token) <==> token == END_ID) by {
        if token == END_ID {
            assert(seq![END_ID][0] == token);
        }
    }
    lemma_all_continuations_contains(contexts, generated, token);
    if offered.contains(token) {
        let k = choose|k: int|
            0 <= k < contexts.len() && #[trigger] context_continuations(
                contexts[k],
                generated,
            ).contains(token);
        assert(contexts[k].contains(token));
    }
    if exists|k: int| 0 <= k < contexts.len() && #[trigger] contexts[k].contains(token) {
        let k = choose|k: int| 0 <= k < contexts.len() && #[trigger] contexts[k].contains(token);
        assert(context_continuations(contexts[k], generated).contains(token));
    }
}

/// Where what was generated stands in none of the snippets, only the end
/// token is allowed: generation stops.
pub proof fn no_match_allows_only_end(contexts: Seq<Seq<i64>>, generated: Seq<i64>)
    requires
        forall|k: int, at: int|
            0 <= k < contexts.len() ==> !#[trigger] occurs_at(contexts[k], generated, at),
    ensures
        candidate_tokens(contexts, generated) == seq![END_ID],
    decreases contexts.len(),
{
    lemma_no_match_offers_nothing(contexts, generated);
    assert(candidate_tokens(contexts, generated) =~= seq![END_ID]);
}

/// Snippets in which `generated` stands nowhere offer nothing.
proof fn lemma_no_match_offers_nothing(contexts: Seq<Seq<i64>>, generated: Seq<i64>)
    requires
        forall|k: int, at: int|
            0 <= k < contexts.len() ==> !#[trigger] occurs_at(contexts[k], generated, at),
    ensures
        all_continuations(contexts, generated) == Seq::<i64>::empty(),
    decreases contexts.len(),
{
    if contexts.len() > 0 {
        let front = contexts.drop_last();
        let context = contexts.last();
        assert forall|k: int, at: int| 0 <= k < front.len() implies !#[trigger] occurs_at(
            front[k],
            generated,
            at,
        ) by {
            assert(front[k] == contexts[k]);
            assert(!occurs_at(contexts[k], generated, at));
        }
        lemma_no_match_offers_nothing(front, generated);
        assert(context == contexts[contexts.len() - 1]);
        assert(!occurs_at(context, generated, 0));
        if generated.len() == 0 {
            assert(context.subrange(0, 0) =~= generated);
        } else {
            lemma_scan_without_occurrence(context, generated, 0);
        }
        assert(all_continuations(contexts, generated) =~= Seq::<i64>::empty());
    }
}

/// The token that follows the first occurrence of what was generated, in any
/// of the snippets, is allowed.
pub proof fn first_continuation_is_allowed(contexts: Seq<Seq<i64>>, generated: Seq<i64>, k: int, at: int)
    requires
        0 <= k < contexts.len(),
        first_occurrence(contexts[k], generated, 0, at),
        at + generated.len() < contexts[k].len(),
    ensures
        candidate_tokens(contexts, generated).contains(contexts[k][at + generated.len()]),
{
    let context = contexts[k];
    let token = context[at + generated.len()];
    let offered = all_continuations(contexts, generated);
    if generated.len() == 0 {
        assert(context_continuations(context, generated).contains(token));
    } else {
        lemma_scan_skips_to_occurrence(context, generated, 0, at);
        let end = at + generated.len();
        let rest = continuations_from(context, generated, end);
        assert(continuations_from(context, generated, at) == seq![token] + rest);
        assert((seq![token] + rest)[0] == token);
        assert(context_continuations(context, generated).contains(token));
    }
    lemma_all_continuations_contains(contexts, generated, token);
    lemma_contains_concat(offered, seq![END_ID], token);
    assert(candidate_tokens(contexts, generated) =~= offered + seq![END_ID]);
}

} // verus!
