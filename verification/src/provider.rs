//! The engine as a provider of transcriptions. It knows Russian only.
use std::sync::Arc;

use vstd::prelude::*;

use crate::engine::{engine_words, is_answer, opt_text, said, GigaamEngine};
use crate::error::GigaamError;
use crate::model::{
    is_transcription, networks_ready, transcriptions_are_trimmed, EncoderOutputs, GigaamModelView,
};
use crate::rnnt::DecoderOutputs;
use crate::tensor::{Output, Tensor};
use crate::text::{trim, trimmed, trimming_keeps_the_middle, white_space};

verus! {

/// A transcription. The confidence, where a provider has one, is the bit
/// pattern of a single-precision number.
#[derive(Debug)]
pub struct TranscriptResult {
    pub text: String,
    pub confidence: Option<u32>,
    pub is_partial: bool,
}

/// Why there is no transcription.
#[derive(Debug)]
pub enum TranscriptionError {
    EngineFailed(String),
}

/// A transcription's text, confidence and whether it is partial, or the words
/// of a failure.
pub open spec fn provider_view(r: Result<TranscriptResult, TranscriptionError>) -> Result<
    (Seq<char>, Option<u32>, bool),
    Seq<char>,
> {
    match r {
        Ok(t) => Ok((t.text@, t.confidence, t.is_partial)),
        Err(TranscriptionError::EngineFailed(e)) => Err(e@),
    }
}

/// What the provider makes of the engine's answer.
pub open spec fn provided(answer: Result<Seq<char>, Seq<char>>) -> Result<
    (Seq<char>, Option<u32>, bool),
    Seq<char>,
> {
    match answer {
        Ok(text) => Ok((trimmed(text), None, false)),
        Err(e) => Err(e),
    }
}

/// Makes the engine's answer a transcription.
pub fn provide(answer: Result<String, String>) -> (r: Result<TranscriptResult, TranscriptionError>)
    ensures
        provider_view(r) == provided(said(answer)),
{
    match answer {
        Ok(text) => Ok(
            TranscriptResult {
                text: trim(text.as_str()),
                confidence: None,
                is_partial: false,
            },
        ),
        Err(e) => Err(TranscriptionError::EngineFailed(e)),
    }
}

/// An engine that provides transcriptions.
pub struct GigaamProvider<P> {
    engine: Arc<GigaamEngine<P>>,
}

impl<P> GigaamProvider<P> {
    /// The engine behind the provider.
    pub closed spec fn engine_of(self) -> Arc<GigaamEngine<P>> {
        self.engine
    }

    /// A provider with this engine behind it.
    pub fn new(engine: Arc<GigaamEngine<P>>) -> (r: GigaamProvider<P>)
        ensures
            r.engine_of() == engine,
    {
        GigaamProvider { engine }
    }

    /// The final transcription of a recording, without a confidence. The
    /// language is not asked for: it is Russian.
    pub fn transcribe<M, C, E, D, J>(
        &self,
        audio: &[u32],
        _language: Option<String>,
        mel: M,
        encode_ctc: C,
        encode_rnnt: E,
        decode: D,
        join: J,
    ) -> (r: Result<TranscriptResult, TranscriptionError>) where
        M: Fn(Vec<u32>) -> Vec<u32>,
        C: Fn(Tensor, i64) -> Result<Output<Tensor>, GigaamError>,
        E: Fn(Tensor, i64) -> Result<EncoderOutputs, GigaamError>,
        D: Fn(i64, Tensor, Tensor) -> Result<DecoderOutputs, GigaamError>,
        J: Fn(Tensor, Tensor) -> Result<Output<Tensor>, GigaamError>,

        requires
            networks_ready(mel, encode_ctc, encode_rnnt, decode, join),
        ensures
            exists|answer: Result<Seq<char>, Seq<char>>|
                {
                    &&& #[trigger] is_answer(
                        self.engine_of()@.model,
                        audio@,
                        mel,
                        encode_ctc,
                        encode_rnnt,
                        decode,
                        join,
                        answer,
                    )
                    &&& provider_view(r) == provided(answer)
                },
    {
        let answer = self.engine.transcribe_audio(
            audio,
            mel,
            encode_ctc,
            encode_rnnt,
            decode,
            join,
        );
        let ghost said_so = said(answer);
        assert(is_answer(
            self.engine_of()@.model,
            audio@,
            mel,
            encode_ctc,
            encode_rnnt,
            decode,
            join,
            said_so,
        ));
        provide(answer)
    }

    /// Whether a model is loaded.
    pub fn is_model_loaded(&self) -> (r: bool)
        ensures
            r == (self.engine_of()@.model is Some),
    {
        self.engine.is_model_loaded()
    }

    /// The name of the loaded model.
    pub fn get_current_model(&self) -> (r: Option<String>)
        ensures
            opt_text(r) == self.engine_of()@.current,
    {
        self.engine.get_current_model()
    }

    /// The provider's name.
    pub fn provider_name(&self) -> (r: &'static str)
        ensures
            r@ == "GigaAM"@,
    {
        "GigaAM"
    }
}

/// The provider hands a transcription on as the model made it.
pub proof fn provider_keeps_transcription<M, C, E, D, J>(
    model: GigaamModelView,
    audio: Seq<u32>,
    mel: M,
    encode_ctc: C,
    encode_rnnt: E,
    decode: D,
    join: J,
    text: Seq<char>,
) where
    M: Fn(Vec<u32>) -> Vec<u32>,
    C: Fn(Tensor, i64) -> Result<Output<Tensor>, GigaamError>,
    E: Fn(Tensor, i64) -> Result<EncoderOutputs, GigaamError>,
    D: Fn(i64, Tensor, Tensor) -> Result<DecoderOutputs, GigaamError>,
    J: Fn(Tensor, Tensor) -> Result<Output<Tensor>, GigaamError>,

    requires
        is_transcription(model, audio, mel, encode_ctc, encode_rnnt, decode, join, Ok(text)),
    ensures
        provided(engine_words(Ok(text))) == Ok::<(Seq<char>, Option<u32>, bool), Seq<char>>(
            (text, None, false),
        ),
{
    transcriptions_are_trimmed(model, audio, mel, encode_ctc, encode_rnnt, decode, join, text);
}

/// The provider takes the white space off both ends of a text and alters
/// nothing else; a failure is handed on with its own words.
pub proof fn provider_alters_ends_only(text: Seq<char>, e: Seq<char>) -> (r: (Seq<char>, Seq<char>))
    ensures
        provided(Ok(text)) matches Ok(t) && r.0 + t.0 + r.1 == text && t.1 is None && !t.2,
        forall|i: int| 0 <= i < r.0.len() ==> white_space(#[trigger] r.0[i]),
        forall|i: int| 0 <= i < r.1.len() ==> white_space(#[trigger] r.1[i]),
        provided(Err(e)) == Err::<(Seq<char>, Option<u32>, bool), Seq<char>>(e),
{
    trimming_keeps_the_middle(text)
}

/// A transcription and a failure stand for themselves.
pub proof fn transcriptions_stand_for_themselves(t: TranscriptResult, words: String)
    ensures
        provider_view(Ok(t)) == Ok::<(Seq<char>, Option<u32>, bool), Seq<char>>(
            (t.text@, t.confidence, t.is_partial),
        ),
        provider_view(Err(TranscriptionError::EngineFailed(words))) == Err::<
            (Seq<char>, Option<u32>, bool),
            Seq<char>,
        >(words@),
{
}

} // verus!
