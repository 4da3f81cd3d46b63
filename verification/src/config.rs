//! How the language model is asked to generate.

use vstd::prelude::*;

verus! {

/// The hard cap on the length of a generated sequence, in tokens.
pub const MAX_LENGTH: i64 = 200;

/// The number of beams of the search.
pub const NUM_BEAMS: i64 = 5;

/// The number of completions handed back for one prompt.
pub const NUM_RETURN_SEQUENCES: i64 = 5;

/// The settings of a generation, as plain values.
#[derive(Clone, Copy, Debug, PartialEq, Eq, Structural)]
pub struct GenerationSettings {
    /// The hard cap on the length of a generated sequence, in tokens.
    pub max_length: i64,
    /// Whether tokens are sampled; if not, the search is deterministic.
    pub do_sample: bool,
    /// The number of beams of the search.
    pub num_beams: i64,
    /// The number of completions handed back for one prompt.
    pub num_return_sequences: i64,
}

/// The settings under which completions are served: a deterministic beam
/// search that hands back one completion per beam.
pub fn textgen_model_config() -> (config: GenerationSettings)
    ensures
        config == (GenerationSettings {
            max_length: MAX_LENGTH,
            do_sample: false,
            num_beams: NUM_BEAMS,
            num_return_sequences: NUM_RETURN_SEQUENCES,
        }),
{
    GenerationSettings {
        max_length: MAX_LENGTH,
        do_sample: false,
        num_beams: NUM_BEAMS,
        num_return_sequences: NUM_RETURN_SEQUENCES,
    }
}

} // verus!
