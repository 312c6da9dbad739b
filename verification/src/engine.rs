//! The generator: a LLaMA model of the `llm` crate, run one session per
//! request.
//!
//! Running a session is left to the worker's thread: what it produces
//! depends on the model that was loaded and on chance, and it may not
//! return at all, on a model whose logits are not finite or when the
//! system's clock is set back meanwhile. Here stands what is decided
//! around it: whether a session fits its model ([`screen`]), and what its
//! early return means for the request ([`settle`]).

use vstd::prelude::*;
use vstd::string::StringExecFns;
use llm::models::Llama;
use llm::{InferenceError, InferenceParameters, InferenceSession, Model};

verus! {

/// `llm::models::Llama`, carried as an opaque value.
#[verifier::external_type_specification]
#[verifier::external_body]
pub struct ExLlama(Llama);

/// `llm::InferenceSession`, carried as an opaque value.
#[verifier::external_type_specification]
#[verifier::external_body]
pub struct ExInferenceSession(InferenceSession);

/// `llm::InferenceError`, carried as an opaque value.
#[verifier::external_type_specification]
#[verifier::external_body]
pub struct ExInferenceError(InferenceError);

/// Why the generator failed while it served one request.
#[derive(Clone, Copy, Debug, PartialEq, Eq, Structural)]
pub enum InferError {
    /// The prompt could not be turned into tokens.
    TokenizationFailed,
    /// The context window of the model is full.
    ContextFull,
    /// The model has ended the text itself.
    EndOfText,
    /// The model's vocabulary does not hold one token for each logit.
    VocabularyMismatch,
    /// The model's vocabulary holds fewer than two tokens.
    VocabularyTooSmall,
    /// The sampler's settings cannot be used with this model.
    SamplingOutOfRange,
}

/// Why a session returned early.
#[derive(Clone, Copy, Debug, PartialEq, Eq, Structural)]
pub enum EngineStop {
    /// The per-unit callback told it to halt.
    Halted,
    /// The generator failed.
    Failed(InferError),
}

/// The text that reports `error`.
pub open spec fn infer_message(error: InferError) -> Seq<char> {
    match error {
        InferError::TokenizationFailed => "the prompt could not be tokenized"@,
        InferError::ContextFull => "the context window is full"@,
        InferError::EndOfText => "the model ended the text"@,
        InferError::VocabularyMismatch => "the vocabulary does not match the model"@,
        InferError::VocabularyTooSmall => "the vocabulary holds fewer than two tokens"@,
        InferError::SamplingOutOfRange => "the sampling settings do not fit the model"@,
    }
}

impl InferError {
    /// A message that says what went wrong.
    pub fn message(&self) -> (text: String)
        ensures
            text@ == infer_message(*self),
    {
        match self {
            InferError::TokenizationFailed => String::from_str("the prompt could not be tokenized"),
            InferError::ContextFull => String::from_str("the context window is full"),
            InferError::EndOfText => String::from_str("the model ended the text"),
            InferError::VocabularyMismatch => String::from_str(
                "the vocabulary does not match the model",
            ),
            InferError::VocabularyTooSmall => String::from_str(
                "the vocabulary holds fewer than two tokens",
            ),
            InferError::SamplingOutOfRange => String::from_str(
                "the sampling settings do not fit the model",
            ),
        }
    }
}

/// What a session's early return means for the request: a halt that the
/// callback asked for is no failure, anything else is.
pub open spec fn verdict_of(stop: Option<EngineStop>) -> Result<(), InferError> {
    match stop {
        Some(EngineStop::Failed(error)) => Err(error),
        _ => Ok(()),
    }
}

/// The outcome of a request whose session returned early for `stop`, or
/// ran to its end where `stop` is `None`.
pub fn verdict(stop: Option<EngineStop>) -> (outcome: Result<(), InferError>)
    ensures
        outcome == verdict_of(stop),
{
    match stop {
        Some(EngineStop::Failed(error)) => Err(error),
        _ => Ok(()),
    }
}

/// The sampler's settings that are counts.
#[derive(Clone, Copy, Debug, PartialEq, Eq, Structural)]
pub struct Sampling {
    /// How many threads evaluate the model.
    pub threads: usize,
    /// How many tokens of the prompt are fed at once.
    pub batch: usize,
    /// Among how many of the likeliest tokens the next one is drawn.
    pub top_k: usize,
    /// How many of the latest tokens are held against repetition.
    pub penalty_window: usize,
}

/// The counts that the generator has by default.
pub open spec fn standard() -> Sampling {
    Sampling { threads: 8, batch: 8, top_k: 40, penalty_window: 512 }
}

impl Sampling {
    /// The settings that the generator has by default.
    pub fn standard() -> (sampling: Sampling)
        ensures
            sampling == standard(),
    {
        standard_sampling()
    }
}

/// The number of logits that a session holds: one for each token that the
/// model it was started by can predict.
pub uninterp spec fn logit_count(session: InferenceSession) -> nat;

/// The number of logits that a model computes at each step.
pub uninterp spec fn logit_width(model: Llama) -> nat;

/// The number of tokens in a model's vocabulary.
pub uninterp spec fn token_count(model: Llama) -> nat;

/// Whether a session with `logits` logits can run on a model whose
/// vocabulary holds `tokens` tokens, with the settings `sampling`: every
/// logit has its token, there are at least two tokens, the sampler draws
/// among at least one and at most all of them, and batches and threads are
/// not none.
pub open spec fn usable(sampling: Sampling, logits: nat, tokens: nat) -> bool {
    &&& tokens == logits
    &&& 1 < tokens
    &&& 0 < sampling.top_k <= logits
    &&& sampling.batch > 0
    &&& sampling.threads > 0
}

/// What [`screen`] answers: the mismatch of the vocabulary first, then
/// its smallness, then settings that are out of range.
pub open spec fn screened(sampling: Sampling, logits: nat, tokens: nat) -> Result<
    (),
    InferError,
> {
    if tokens != logits {
        Err(InferError::VocabularyMismatch)
    } else if tokens <= 1 {
        Err(InferError::VocabularyTooSmall)
    } else if usable(sampling, logits, tokens) {
        Ok(())
    } else {
        Err(InferError::SamplingOutOfRange)
    }
}

/// Tests whether a session can run, and says why where it cannot.
pub fn screen(sampling: &Sampling, logits: usize, tokens: usize) -> (outcome: Result<
    (),
    InferError,
>)
    ensures
        outcome == screened(*sampling, logits as nat, tokens as nat),
        outcome is Ok <==> usable(*sampling, logits as nat, tokens as nat),
{
    if tokens != logits {
        Err(InferError::VocabularyMismatch)
    } else if tokens <= 1 {
        Err(InferError::VocabularyTooSmall)
    } else if 0 < sampling.top_k && sampling.top_k <= logits && sampling.batch > 0
        && sampling.threads > 0 {
        Ok(())
    } else {
        Err(InferError::SamplingOutOfRange)
    }
}

/// `Model::start_session` on a `Llama`, with the default configuration: a
/// session of its own, with no context yet, that holds as many logits as
/// the model computes.
#[verifier::external_body]
pub(crate) fn start_session(model: &Llama) -> (session: InferenceSession)
    ensures
        logit_count(session) == logit_width(*model),
{
    Model::start_session(model, Default::default())
}

/// The length of a session's `last_logits`.
#[verifier::external_body]
pub(crate) fn logits_held(session: &InferenceSession) -> (n: usize)
    ensures
        n == logit_count(*session),
{
    session.last_logits.len()
}

/// The length of `id_to_token` in what `Model::vocabulary` hands out.
#[verifier::external_body]
pub(crate) fn tokens_known(model: &Llama) -> (n: usize)
    ensures
        n == token_count(*model),
{
    Model::vocabulary(model).id_to_token.len()
}

/// `InferenceParameters::default`, of which the four counts are kept: 8
/// threads, batches of 8, the 40 likeliest tokens, a window of 512.
#[verifier::external_body]
pub(crate) fn standard_sampling() -> (sampling: Sampling)
    ensures
        sampling == (Sampling { threads: 8, batch: 8, top_k: 40, penalty_window: 512 }),
{
    let standard = InferenceParameters::default();
    Sampling {
        threads: standard.n_threads,
        batch: standard.n_batch,
        top_k: standard.top_k,
        penalty_window: standard.repetition_penalty_last_n,
    }
}

/// Whether `error` is one that the generator itself reports.
pub open spec fn from_generator(error: InferError) -> bool {
    error is TokenizationFailed || error is ContextFull || error is EndOfText
}

/// Why a session that returned `error` did so.
pub uninterp spec fn stop_kind(error: InferenceError) -> EngineStop;

/// What [`settle`] makes of what a session returned.
pub open spec fn settled(stop: Option<InferenceError>) -> Result<(), InferError> {
    match stop {
        Some(error) => verdict_of(Some(stop_kind(error))),
        None => verdict_of(None),
    }
}

/// Tells the variants of `llm::InferenceError` apart. An error that the
/// callback returned is the halt that it asked for; a failure is one of
/// the generator's own three.
#[verifier::external_body]
pub(crate) fn classify(error: InferenceError) -> (stop: EngineStop)
    ensures
        stop == stop_kind(error),
        stop matches EngineStop::Failed(kind) ==> from_generator(kind),
{
    match error {
        InferenceError::TokenizationFailed => EngineStop::Failed(InferError::TokenizationFailed),
        InferenceError::ContextFull => EngineStop::Failed(InferError::ContextFull),
        InferenceError::EndOfText => EngineStop::Failed(InferError::EndOfText),
        InferenceError::UserCallback(_) => EngineStop::Halted,
    }
}

/// The outcome of a request whose session returned `stop`: the error that
/// ended it early, or `None` where it ran to its end.
///
/// A session that ran to its end has succeeded, and so has one that the
/// callback halted. Any other error is the generator's failure, and one
/// of its own three kinds.
pub fn settle(stop: Option<InferenceError>) -> (outcome: Result<(), InferError>)
    ensures
        outcome == settled(stop),
        stop is None ==> outcome is Ok,
        outcome matches Err(kind) ==> stop is Some && from_generator(kind),
{
    match stop {
        Some(error) => verdict(Some(classify(error))),
        None => verdict(None),
    }
}

} // verus!
