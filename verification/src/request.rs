//! The request and what is handed back for it: the query, and the
//! completions with the echoed prompt taken off.

use vstd::prelude::*;

verus! {

/// The largest request body, in bytes, that is read at all.
pub const MAX_BODY_BYTES: u64 = 16384;

/// One request for completions.
#[derive(Clone, Debug)]
pub struct TextGenQuery {
    /// The text to complete.
    pub prompt: String,
    /// Reference passages in which the completion is to stay grounded.
    pub context: Option<Vec<String>>,
    /// The number of sentences at which generation stops.
    pub generate_sentences: Option<usize>,
    /// The number of paragraphs at which generation stops.
    pub generate_paragraphs: Option<usize>,
}

impl TextGenQuery {
    /// A request is well formed when it has a prompt to complete.
    pub open spec fn well_formed(&self) -> bool {
        self.prompt@.len() > 0
    }

    /// Tells whether the request is well formed.
    pub fn is_well_formed(&self) -> (b: bool)
        ensures
            b == self.well_formed(),
    {
        !self.prompt.as_str().is_empty()
    }
}

/// A completion without the prompt that it echoes: what lies behind the
/// first `prompt_chars` characters.
pub open spec fn stripped(completion: Seq<char>, prompt_chars: nat) -> Seq<char> {
    completion.skip(prompt_chars as int)
}

/// Takes the echoed prompt off one completion, by the prompt's length in
/// characters. There is nothing to hand back where the completion is shorter
/// than the prompt, and only there.
pub fn strip_prompt(completion: &str, prompt_chars: usize) -> (output: Option<String>)
    ensures
        output is Some <==> prompt_chars <= completion@.len(),
        output matches Some(rest) ==> rest@ == stripped(completion@, prompt_chars as nat),
{
    let end: usize = completion.unicode_len();
    if prompt_chars > end {
        return None;
    }
    let rest = completion.substring_char(prompt_chars, end);
    assert(rest@ =~= stripped(completion@, prompt_chars as nat));
    Some(rest.to_owned())
}

/// Every one of `outputs` is at least as long as a prompt of `prompt_chars`
/// characters.
pub open spec fn all_echo(outputs: Seq<String>, prompt_chars: nat) -> bool {
    forall|i: int| 0 <= i < outputs.len() ==> prompt_chars <= (#[trigger] outputs[i])@.len()
}

/// Takes the echoed prompt off every completion that the model returned, in
/// their order. The prompt's length is taken once, in characters. There is
/// nothing to hand back where one of the completions is shorter than the
/// prompt, and only there.
pub fn completions(prompt: &str, outputs: &Vec<String>) -> (stripped_outputs: Option<Vec<String>>)
    ensures
        stripped_outputs is Some <==> all_echo(outputs@, prompt@.len()),
        stripped_outputs matches Some(rests) ==> {
            &&& rests@.len() == outputs@.len()
            &&& forall|i: int|
                0 <= i < outputs@.len() ==> (#[trigger] rests@[i])@ == stripped(
                    outputs@[i]@,
                    prompt@.len(),
                )
        },
{
    let prompt_chars: usize = prompt.unicode_len();
    let mut rests: Vec<String> = Vec::new();
    let mut i: usize = 0;
    while i < outputs.len()
        invariant
            i <= outputs@.len(),
            prompt_chars == prompt@.len(),
            rests@.len() == i,
            all_echo(outputs@.take(i as int), prompt@.len()),
            forall|j: int|
                0 <= j < i ==> (#[trigger] rests@[j])@ == stripped(outputs@[j]@, prompt@.len()),
        decreases outputs@.len() - i,
    {
        match strip_prompt(outputs[i].as_str(), prompt_chars) {
            Some(rest) => {
                rests.push(rest);
            },
            None => {
                assert(!(prompt@.len() <= outputs@[i as int]@.len()));
                return None;
            },
        }
        assert forall|j: int| 0 <= j < i + 1 implies prompt@.len() <= (#[trigger] outputs@.take(
            i + 1,
        )[j])@.len() by {
            if j < i {
                assert(outputs@.take(i as int)[j] == outputs@.take(i + 1)[j]);
            }
        }
        i += 1;
    }
    assert(outputs@.take(i as int) =~= outputs@);
    Some(rests)
}

/// Where a completion begins with the prompt, the prompt and what is left
/// after stripping make up the completion again: stripping takes the echoed
/// prompt off and nothing else.
pub proof fn stripping_takes_off_the_prompt(prompt: Seq<char>, completion: Seq<char>)
    requires
        prompt.is_prefix_of(completion),
    ensures
        prompt + stripped(completion, prompt.len()) == completion,
{
    assert(prompt + stripped(completion, prompt.len()) =~= completion);
}

/// Turns a string into a boxed slice with `String::into_boxed_str`.
/// Trusted: the characters stay as they are.
#[verifier::external_body]
fn into_boxed_str(s: String) -> (boxed: Box<str>)
    ensures
        boxed@ == s@,
{
    s.into_boxed_str()
}

/// Gives up a boxed slice with `Box::leak`, so that it lives as long as the
/// process. Trusted: the characters stay as they are.
#[verifier::external_body]
fn leak_boxed_str(boxed: Box<str>) -> (leaked: &'static str)
    ensures
        leaked@ == boxed@,
{
    Box::leak(boxed)
}

/// Lends a string for as long as the process lives. The string is never
/// freed: this is for the few strings that are made once.
pub fn string_to_static_str(s: String) -> (leaked: &'static str)
    ensures
        leaked@ == s@,
{
    leak_boxed_str(into_boxed_str(s))
}

} // verus!
