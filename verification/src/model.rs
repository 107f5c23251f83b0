//! The GigaAM-v3 model: its files, its vocabulary and the way from a recording
//! to text.
//!
//! A recording becomes log-mel features. The CTC variant scores every frame and
//! decodes the scores at once; the RNN-T variant encodes the frames and then
//! decodes token by token. The arithmetic on samples and the networks are
//! functions that the caller hands in.
use vstd::prelude::*;

use crate::decode::{
    ctc_collapse, ctc_greedy_decode, frame_labels, run_ctc, token_texts, tokens_to_text,
};
use crate::error::{GigaamError, GigaamErrorView, IoKind};
use crate::features::{
    bands_as, features_are_determined, features_of, frames_in, gives_bands, is_features,
    log_mel_features, MelFn, WIN_LENGTH,
};
use crate::rnnt::{
    decodes_as, decoding_is_greedy, encoder_error, frames_addressable, greedy_tokens, is_decoding,
    joins_as, run_rnnt, tokens_view, DecoderFn, DecoderOutputs, JoinerFn,
};
use crate::tensor::{output_error, Output, Tensor, TensorView};
use crate::text::{join, trimmed, trimming_is_idempotent};
use crate::vocab::{blank_id, load_vocab, table_fits, texts, vocab_entries, vocab_table};

verus! {

/// The two variants of the model.
#[derive(Debug, Clone, Copy, PartialEq, Eq, Structural)]
pub enum GigaamKind {
    Ctc,
    Rnnt,
}

/// The names of a variant's networks, in the order in which they are opened.
pub open spec fn session_names(kind: GigaamKind) -> Seq<Seq<char>> {
    match kind {
        GigaamKind::Ctc => seq!["v3_e2e_ctc"@],
        GigaamKind::Rnnt => seq![
            "v3_e2e_rnnt_encoder"@,
            "v3_e2e_rnnt_decoder"@,
            "v3_e2e_rnnt_joint"@,
        ],
    }
}

/// The name of a variant's vocabulary file.
pub open spec fn vocab_name(kind: GigaamKind) -> Seq<char> {
    match kind {
        GigaamKind::Ctc => "v3_e2e_ctc_vocab.txt"@,
        GigaamKind::Rnnt => "v3_e2e_rnnt_vocab.txt"@,
    }
}

/// The file of a network: the quantized one where it is wanted and exists.
pub open spec fn session_file_name(base: Seq<char>, quantized: bool) -> Seq<char> {
    if quantized {
        base + ".int8.onnx"@
    } else {
        base + ".onnx"@
    }
}

/// The names of a variant's networks.
pub fn session_bases(kind: GigaamKind) -> (r: Vec<String>)
    ensures
        texts(r@) == session_names(kind),
{
    let mut out: Vec<String> = Vec::new();
    match kind {
        GigaamKind::Ctc => {
            out.push("v3_e2e_ctc".to_owned());
        },
        GigaamKind::Rnnt => {
            out.push("v3_e2e_rnnt_encoder".to_owned());
            out.push("v3_e2e_rnnt_decoder".to_owned());
            out.push("v3_e2e_rnnt_joint".to_owned());
        },
    }
    assert(texts(out@) =~= session_names(kind));
    out
}

/// The name of a variant's vocabulary file.
pub fn vocab_file(kind: GigaamKind) -> (r: String)
    ensures
        r@ == vocab_name(kind),
{
    match kind {
        GigaamKind::Ctc => "v3_e2e_ctc_vocab.txt".to_owned(),
        GigaamKind::Rnnt => "v3_e2e_rnnt_vocab.txt".to_owned(),
    }
}

/// The name of the quantized file of a network.
pub fn quantized_file(base: &str) -> (r: String)
    ensures
        r@ == session_file_name(base@, true),
{
    join(base, ".int8.onnx")
}

/// The file to open for a network: the quantized one if it is wanted and
/// exists, else the full one.
pub fn session_file(base: &str, try_quantized: bool, quantized_exists: bool) -> (r: String)
    ensures
        r@ == session_file_name(base@, try_quantized && quantized_exists),
{
    if try_quantized && quantized_exists {
        quantized_file(base)
    } else {
        join(base, ".onnx")
    }
}

/// The files of a variant's networks, given which quantized ones exist.
pub open spec fn session_file_names(
    kind: GigaamKind,
    quantized: bool,
    exists_quantized: Seq<bool>,
) -> Seq<Seq<char>> {
    Seq::new(
        session_names(kind).len(),
        |i: int| session_file_name(session_names(kind)[i], quantized && exists_quantized[i]),
    )
}

/// The files to open for a variant's networks, in order.
pub fn session_files(kind: GigaamKind, quantized: bool, exists_quantized: &Vec<bool>) -> (r: Vec<
    String,
>)
    requires
        exists_quantized.len() == session_names(kind).len(),
    ensures
        texts(r@) == session_file_names(kind, quantized, exists_quantized@),
{
    let bases = session_bases(kind);
    let ghost names = session_names(kind);
    let mut out: Vec<String> = Vec::new();
    let mut i: usize = 0;
    assert(bases@.len() == texts(bases@).len());
    while i < bases.len()
        invariant
            texts(bases@) == names,
            names == session_names(kind),
            bases.len() == names.len(),
            exists_quantized.len() == names.len(),
            i <= bases.len(),
            out.len() == i,
            forall|j: int|
                0 <= j < i ==> #[trigger] out@[j]@ == session_file_name(
                    names[j],
                    quantized && exists_quantized@[j],
                ),
        decreases bases.len() - i,
    {
        assert(names[i as int] == bases@[i as int]@);
        out.push(session_file(bases[i].as_str(), quantized, exists_quantized[i]));
        i = i + 1;
    }
    assert(texts(out@) =~= session_file_names(kind, quantized, exists_quantized@));
    out
}

/// A loaded model.
#[derive(Debug)]
pub struct GigaamModel {
    kind: GigaamKind,
    vocab: Vec<String>,
    blank_idx: usize,
}

/// A loaded model's variant, its texts by token and its blank token.
pub struct GigaamModelView {
    pub kind: GigaamKind,
    pub vocab: Seq<Seq<char>>,
    pub blank: usize,
}

impl GigaamModelView {
    /// The blank is one of the tokens.
    pub open spec fn wf(self) -> bool {
        self.blank < self.vocab.len()
    }
}

impl View for GigaamModel {
    type V = GigaamModelView;

    closed spec fn view(&self) -> GigaamModelView {
        GigaamModelView { kind: self.kind, vocab: texts(self.vocab@), blank: self.blank_idx }
    }
}

/// A model or a failure, as values.
pub open spec fn model_view(r: Result<GigaamModel, GigaamError>) -> Result<
    GigaamModelView,
    GigaamErrorView,
> {
    match r {
        Ok(m) => Ok(m@),
        Err(e) => Err(e@),
    }
}

/// The model of this variant with these vocabulary entries. There is none
/// without a blank token.
pub open spec fn model_with(kind: GigaamKind, entries: Seq<(Seq<char>, usize)>) -> Result<
    GigaamModelView,
    GigaamErrorView,
> {
    match blank_id(entries) {
        Some(blank) => Ok(GigaamModelView { kind, vocab: vocab_table(entries), blank }),
        None => Err(
            GigaamErrorView::Io(
                IoKind::InvalidData,
                "Missing <blk> token in GigaAM vocabulary"@,
            ),
        ),
    }
}

/// What the RNN-T encoder gave.
#[derive(Debug)]
pub struct EncoderOutputs {
    pub encoded: Output<Tensor>,
    pub encoded_len: Output<Vec<i32>>,
}

/// A text or a failure, as values.
pub open spec fn text_view(r: Result<String, GigaamError>) -> Result<Seq<char>, GigaamErrorView> {
    match r {
        Ok(text) => Ok(text@),
        Err(e) => Err(e@),
    }
}

/// The text of a sequence of tokens.
pub open spec fn spoken(model: GigaamModelView, tokens: Seq<usize>) -> Seq<char> {
    trimmed(token_texts(tokens, model.vocab))
}

/// The text of the CTC encoder's scores.
pub open spec fn ctc_text(model: GigaamModelView, scores: TensorView) -> Seq<char> {
    spoken(
        model,
        ctc_collapse(frame_labels(scores.data, scores.shape[1], scores.shape[2]), model.blank),
    )
}

/// What a run of the CTC encoder amounts to.
pub open spec fn ctc_result(
    model: GigaamModelView,
    out: Result<Output<Tensor>, GigaamError>,
) -> Result<Seq<char>, GigaamErrorView> {
    match out {
        Err(e) => Err(e@),
        Ok(Output::Ready(scores)) => Ok(ctc_text(model, scores@)),
        Ok(o) => Err(output_error(o, "log_probs"@).unwrap()),
    }
}

/// `r` can be what a run of the RNN-T encoder amounts to, with `decode` and
/// `join` to decode it.
pub open spec fn is_rnnt_result<D, J>(
    model: GigaamModelView,
    out: Result<EncoderOutputs, GigaamError>,
    decode: D,
    join: J,
    r: Result<Seq<char>, GigaamErrorView>,
) -> bool where
    D: Fn(i64, Tensor, Tensor) -> Result<DecoderOutputs, GigaamError>,
    J: Fn(Tensor, Tensor) -> Result<Output<Tensor>, GigaamError>,
 {
    match out {
        Err(e) => r == Err::<Seq<char>, GigaamErrorView>(e@),
        Ok(o) => exists|decoding: Result<Seq<usize>, GigaamErrorView>|
            {
                &&& #[trigger] is_decoding(
                    o.encoded,
                    o.encoded_len,
                    model.blank,
                    decode,
                    join,
                    decoding,
                )
                &&& r == match decoding {
                    Ok(tokens) => Ok::<Seq<char>, GigaamErrorView>(spoken(model, tokens)),
                    Err(e) => Err(e),
                }
            },
    }
}

/// Scores that hold a row for every frame.
pub open spec fn has_score_rows(out: Result<Output<Tensor>, GigaamError>) -> bool {
    match out {
        Ok(Output::Ready(p)) => {
            &&& p@.shape.len() >= 3
            &&& p@.shape[1] * p@.shape[2] <= p@.data.len()
        },
        _ => true,
    }
}

/// An encoding whose frames can be read, or none.
pub open spec fn has_frames(out: Result<EncoderOutputs, GigaamError>) -> bool {
    match out {
        Ok(o) => frames_addressable(o.encoded, o.encoded_len),
        Err(_) => true,
    }
}

/// The functions that compute the bands and run the networks can be called
/// wherever the model calls them, and give outputs of the shapes that it reads.
pub open spec fn networks_ready<M, C, E, D, J>(
    mel: M,
    encode_ctc: C,
    encode_rnnt: E,
    decode: D,
    join: J,
) -> bool where
    M: Fn(Vec<u32>) -> Vec<u32>,
    C: Fn(Tensor, i64) -> Result<Output<Tensor>, GigaamError>,
    E: Fn(Tensor, i64) -> Result<EncoderOutputs, GigaamError>,
    D: Fn(i64, Tensor, Tensor) -> Result<DecoderOutputs, GigaamError>,
    J: Fn(Tensor, Tensor) -> Result<Output<Tensor>, GigaamError>,
 {
    &&& gives_bands(mel)
    &&& forall|w: Vec<u32>| w.len() == WIN_LENGTH ==> #[trigger] call_requires(mel, (w,))
    &&& forall|f: Tensor, n: i64| #[trigger] call_requires(encode_ctc, (f, n))
    &&& forall|f: Tensor, n: i64| #[trigger] call_requires(encode_rnnt, (f, n))
    &&& forall|x: i64, h: Tensor, c: Tensor| #[trigger] call_requires(decode, (x, h, c))
    &&& forall|enc: Tensor, dec: Tensor| #[trigger] call_requires(join, (enc, dec))
    &&& forall|f: Tensor, n: i64, out: Result<Output<Tensor>, GigaamError>| #[trigger]
        call_ensures(encode_ctc, (f, n), out) ==> has_score_rows(out)
    &&& forall|f: Tensor, n: i64, out: Result<EncoderOutputs, GigaamError>| #[trigger]
        call_ensures(encode_rnnt, (f, n), out) ==> has_frames(out)
}

/// `r` can be what the model makes of a recording: a recording shorter than a
/// window is refused; else its features and their number go to the variant's
/// encoder, and what comes out is decoded.
pub open spec fn is_transcription<M, C, E, D, J>(
    model: GigaamModelView,
    audio: Seq<u32>,
    mel: M,
    encode_ctc: C,
    encode_rnnt: E,
    decode: D,
    join: J,
    r: Result<Seq<char>, GigaamErrorView>,
) -> bool where
    M: Fn(Vec<u32>) -> Vec<u32>,
    C: Fn(Tensor, i64) -> Result<Output<Tensor>, GigaamError>,
    E: Fn(Tensor, i64) -> Result<EncoderOutputs, GigaamError>,
    D: Fn(i64, Tensor, Tensor) -> Result<DecoderOutputs, GigaamError>,
    J: Fn(Tensor, Tensor) -> Result<Output<Tensor>, GigaamError>,
 {
    let n = frames_in(audio.len() as int) as i64;
    if audio.len() < WIN_LENGTH {
        r == Err::<Seq<char>, GigaamErrorView>(GigaamErrorView::AudioTooShort(WIN_LENGTH))
    } else {
        match model.kind {
            GigaamKind::Ctc => exists|f: Tensor, out: Result<Output<Tensor>, GigaamError>|
                {
                    &&& is_features(mel, audio, f@)
                    &&& #[trigger] call_ensures(encode_ctc, (f, n), out)
                    &&& r == ctc_result(model, out)
                },
            GigaamKind::Rnnt => exists|f: Tensor, out: Result<EncoderOutputs, GigaamError>|
                {
                    &&& is_features(mel, audio, f@)
                    &&& #[trigger] call_ensures(encode_rnnt, (f, n), out)
                    &&& is_rnnt_result(model, out, decode, join, r)
                },
        }
    }
}

/// A CTC encoder: from features and their number of frames to scores, or a
/// failure.
pub type CtcFn = spec_fn(TensorView, i64) -> Result<TensorView, GigaamErrorView>;

/// An RNN-T encoder: from features and their number of frames to an encoding
/// and the lengths, or a failure.
pub type EncoderFn = spec_fn(TensorView, i64) -> Result<(TensorView, Seq<i32>), GigaamErrorView>;

/// A run of the CTC encoder, as values.
pub open spec fn scores_view(out: Result<Output<Tensor>, GigaamError>) -> Result<
    TensorView,
    GigaamErrorView,
> {
    match out {
        Err(e) => Err(e@),
        Ok(Output::Ready(p)) => Ok(p@),
        Ok(o) => Err(output_error(o, "log_probs"@).unwrap()),
    }
}

/// A run of the RNN-T encoder, as values.
pub open spec fn encoding_view(out: Result<EncoderOutputs, GigaamError>) -> Result<
    (TensorView, Seq<i32>),
    GigaamErrorView,
> {
    match out {
        Err(e) => Err(e@),
        Ok(o) => match (o.encoded, o.encoded_len) {
            (Output::Ready(e), Output::Ready(n)) => Ok((e@, n@)),
            _ => Err(encoder_error(o.encoded, o.encoded_len).unwrap()),
        },
    }
}

/// Every run of `encode` gives what `f` says.
pub open spec fn scores_as<C>(encode: C, f: CtcFn) -> bool where
    C: Fn(Tensor, i64) -> Result<Output<Tensor>, GigaamError>,
 {
    forall|features: Tensor, n: i64, out: Result<Output<Tensor>, GigaamError>| #[trigger]
        call_ensures(encode, (features, n), out) ==> scores_view(out) == f(features@, n)
}

/// Every run of `encode` gives what `f` says.
pub open spec fn encodes_as<E>(encode: E, f: EncoderFn) -> bool where
    E: Fn(Tensor, i64) -> Result<EncoderOutputs, GigaamError>,
 {
    forall|features: Tensor, n: i64, out: Result<EncoderOutputs, GigaamError>| #[trigger]
        call_ensures(encode, (features, n), out) ==> encoding_view(out) == f(features@, n)
}

/// The transcription of a recording by a model with these functions for its
/// bands and its networks.
pub open spec fn transcript(
    model: GigaamModelView,
    audio: Seq<u32>,
    mel: MelFn,
    ctc: CtcFn,
    rnnt: EncoderFn,
    decode: DecoderFn,
    join: JoinerFn,
) -> Result<Seq<char>, GigaamErrorView> {
    let n = frames_in(audio.len() as int) as i64;
    if audio.len() < WIN_LENGTH {
        Err(GigaamErrorView::AudioTooShort(WIN_LENGTH))
    } else {
        match model.kind {
            GigaamKind::Ctc => match ctc(features_of(audio, mel), n) {
                Ok(scores) => Ok(ctc_text(model, scores)),
                Err(e) => Err(e),
            },
            GigaamKind::Rnnt => match rnnt(features_of(audio, mel), n) {
                Ok(enc) => match greedy_tokens(enc.0, enc.1, model.blank, decode, join) {
                    Ok(tokens) => Ok(spoken(model, tokens)),
                    Err(e) => Err(e),
                },
                Err(e) => Err(e),
            },
        }
    }
}

/// Where the bands and the networks are functions, so is the transcription.
pub proof fn transcription_is_determined<M, C, E, D, J>(
    model: GigaamModelView,
    audio: Seq<u32>,
    mel: M,
    encode_ctc: C,
    encode_rnnt: E,
    decode: D,
    join: J,
    r: Result<Seq<char>, GigaamErrorView>,
    mel_fn: MelFn,
    ctc_fn: CtcFn,
    rnnt_fn: EncoderFn,
    decoder_fn: DecoderFn,
    joiner_fn: JoinerFn,
) where
    M: Fn(Vec<u32>) -> Vec<u32>,
    C: Fn(Tensor, i64) -> Result<Output<Tensor>, GigaamError>,
    E: Fn(Tensor, i64) -> Result<EncoderOutputs, GigaamError>,
    D: Fn(i64, Tensor, Tensor) -> Result<DecoderOutputs, GigaamError>,
    J: Fn(Tensor, Tensor) -> Result<Output<Tensor>, GigaamError>,

    requires
        bands_as(mel, mel_fn),
        scores_as(encode_ctc, ctc_fn),
        encodes_as(encode_rnnt, rnnt_fn),
        decodes_as(decode, decoder_fn),
        joins_as(join, joiner_fn),
        is_transcription(model, audio, mel, encode_ctc, encode_rnnt, decode, join, r),
    ensures
        r == transcript(model, audio, mel_fn, ctc_fn, rnnt_fn, decoder_fn, joiner_fn),
{
    let n = frames_in(audio.len() as int) as i64;
    if audio.len() >= WIN_LENGTH {
        match model.kind {
            GigaamKind::Ctc => {
                let (f, out) = choose|f: Tensor, out: Result<Output<Tensor>, GigaamError>|
                    {
                        &&& is_features(mel, audio, f@)
                        &&& #[trigger] call_ensures(encode_ctc, (f, n), out)
                        &&& r == ctc_result(model, out)
                    };
                features_are_determined(mel, mel_fn, audio, f@);
                assert(scores_view(out) == ctc_fn(f@, n));
            },
            GigaamKind::Rnnt => {
                let (f, out) = choose|f: Tensor, out: Result<EncoderOutputs, GigaamError>|
                    {
                        &&& is_features(mel, audio, f@)
                        &&& #[trigger] call_ensures(encode_rnnt, (f, n), out)
                        &&& is_rnnt_result(model, out, decode, join, r)
                    };
                features_are_determined(mel, mel_fn, audio, f@);
                assert(encoding_view(out) == rnnt_fn(f@, n));
                if let Ok(o) = out {
                    let decoding = choose|decoding: Result<Seq<usize>, GigaamErrorView>|
                        {
                            &&& #[trigger] is_decoding(
                                o.encoded,
                                o.encoded_len,
                                model.blank,
                                decode,
                                join,
                                decoding,
                            )
                            &&& r == match decoding {
                                Ok(tokens) => Ok::<Seq<char>, GigaamErrorView>(
                                    spoken(model, tokens),
                                ),
                                Err(e) => Err(e),
                            }
                        };
                    if let (Output::Ready(encoded), Output::Ready(lengths)) = (
                        o.encoded,
                        o.encoded_len,
                    ) {
                        decoding_is_greedy(
                            encoded,
                            lengths,
                            model.blank,
                            decode,
                            join,
                            decoding,
                            decoder_fn,
                            joiner_fn,
                        );
                    }
                }
            },
        }
    }
}

/// A transcription has no white space at either end: trimming it changes
/// nothing.
pub proof fn transcriptions_are_trimmed<M, C, E, D, J>(
    model: GigaamModelView,
    audio: Seq<u32>,
    mel: M,
    encode_ctc: C,
    encode_rnnt: E,
    decode: D,
    join: J,
    text: Seq<char>,
) where
    M: Fn(Vec<u32>) -> Vec<u32>,
    C: Fn(Tensor, i64) -> Result<Output<Tensor>, GigaamError>,
    E: Fn(Tensor, i64) -> Result<EncoderOutputs, GigaamError>,
    D: Fn(i64, Tensor, Tensor) -> Result<DecoderOutputs, GigaamError>,
    J: Fn(Tensor, Tensor) -> Result<Output<Tensor>, GigaamError>,

    requires
        is_transcription(model, audio, mel, encode_ctc, encode_rnnt, decode, join, Ok(text)),
    ensures
        trimmed(text) == text,
{
    let raw = choose|raw: Seq<char>| text == #[trigger] trimmed(raw);
    trimming_is_idempotent(raw);
}

impl GigaamModel {
    /// A model of this variant. `sessions` says whether its networks could be
    /// opened, and `vocab_content` is what its vocabulary file holds; a failure
    /// of the networks comes first.
    pub fn new(
        kind: GigaamKind,
        sessions: Result<(), GigaamError>,
        vocab_content: Result<String, GigaamError>,
    ) -> (r: Result<GigaamModel, GigaamError>)
        requires
            vocab_content matches Ok(c) ==> table_fits(vocab_entries(c@)),
        ensures
            match (sessions, vocab_content) {
                (Err(e), _) => model_view(r) == Err::<GigaamModelView, GigaamErrorView>(e@),
                (Ok(_), Err(e)) => model_view(r) == Err::<GigaamModelView, GigaamErrorView>(e@),
                (Ok(_), Ok(c)) => model_view(r) == model_with(kind, vocab_entries(c@)),
            },
            r matches Ok(m) ==> m@.wf(),
    {
        match sessions {
            Err(e) => {
                return Err(e);
            },
            Ok(_) => {},
        }
        let content = match vocab_content {
            Err(e) => {
                return Err(e);
            },
            Ok(c) => c,
        };
        match load_vocab(content.as_str()) {
            Ok((vocab, blank_idx)) => {
                assert(texts(vocab@).len() == vocab@.len());
                Ok(GigaamModel { kind, vocab, blank_idx })
            },
            Err(e) => Err(e),
        }
    }

    /// A second model with the same variant and vocabulary.
    pub fn duplicate(&self) -> (r: GigaamModel)
        ensures
            r@ == self@,
    {
        let vocab = self.vocab.clone();
        assert(texts(vocab@) =~= texts(self.vocab@));
        GigaamModel { kind: self.kind, vocab, blank_idx: self.blank_idx }
    }

    /// The model's variant.
    pub fn kind(&self) -> (r: GigaamKind)
        ensures
            r == self@.kind,
    {
        self.kind
    }

    fn ctc_outcome(&self, out: Result<Output<Tensor>, GigaamError>) -> (r: Result<
        String,
        GigaamError,
    >)
        requires
            has_score_rows(out),
        ensures
            text_view(r) == ctc_result(self@, out),
    {
        match out {
            Err(e) => Err(e),
            Ok(o) => match run_ctc(o) {
                Err(e) => Err(e),
                Ok((flat, t_out, vocab_size)) => Ok(
                    ctc_greedy_decode(
                        flat.as_slice(),
                        t_out,
                        vocab_size,
                        self.vocab.as_slice(),
                        self.blank_idx,
                    ),
                ),
            },
        }
    }

    fn rnnt_outcome<D, J>(
        &self,
        out: Result<EncoderOutputs, GigaamError>,
        decode: D,
        join: J,
    ) -> (r: Result<String, GigaamError>) where
        D: Fn(i64, Tensor, Tensor) -> Result<DecoderOutputs, GigaamError>,
        J: Fn(Tensor, Tensor) -> Result<Output<Tensor>, GigaamError>,

        requires
            has_frames(out),
            forall|x: i64, h: Tensor, c: Tensor| call_requires(decode, (x, h, c)),
            forall|enc: Tensor, dec: Tensor| call_requires(join, (enc, dec)),
        ensures
            is_rnnt_result(self@, out, decode, join, text_view(r)),
    {
        match out {
            Err(e) => Err(e),
            Ok(o) => {
                let decoding = run_rnnt(o.encoded, o.encoded_len, self.blank_idx, decode, join);
                assert(is_decoding(
                    out->Ok_0.encoded,
                    out->Ok_0.encoded_len,
                    self@.blank,
                    decode,
                    join,
                    tokens_view(decoding),
                ));
                match decoding {
                    Err(e) => Err(e),
                    Ok(tokens) => Ok(tokens_to_text(tokens.as_slice(), self.vocab.as_slice())),
                }
            },
        }
    }

    /// The text of a recording of 16 kHz mono samples. `mel` computes the bands
    /// of one window; the others run the networks, of which only those of the
    /// model's variant are called.
    pub fn transcribe_samples<M, C, E, D, J>(
        &self,
        audio: &[u32],
        mel: M,
        encode_ctc: C,
        encode_rnnt: E,
        decode: D,
        join: J,
    ) -> (r: Result<String, GigaamError>) where
        M: Fn(Vec<u32>) -> Vec<u32>,
        C: Fn(Tensor, i64) -> Result<Output<Tensor>, GigaamError>,
        E: Fn(Tensor, i64) -> Result<EncoderOutputs, GigaamError>,
        D: Fn(i64, Tensor, Tensor) -> Result<DecoderOutputs, GigaamError>,
        J: Fn(Tensor, Tensor) -> Result<Output<Tensor>, GigaamError>,

        requires
            networks_ready(mel, encode_ctc, encode_rnnt, decode, join),
        ensures
            is_transcription(
                self@,
                audio@,
                mel,
                encode_ctc,
                encode_rnnt,
                decode,
                join,
                text_view(r),
            ),
    {
        if audio.len() < WIN_LENGTH {
            return Err(GigaamError::AudioTooShort(WIN_LENGTH));
        }
        let features = log_mel_features(audio, mel);
        let n_frames: i64 = features.shape[2] as i64;
        match self.kind {
            GigaamKind::Ctc => {
                let out = encode_ctc(features, n_frames);
                self.ctc_outcome(out)
            },
            GigaamKind::Rnnt => {
                let out = encode_rnnt(features, n_frames);
                self.rnnt_outcome(out, decode, join)
            },
        }
    }
}

/// A recording is refused if and only if it is shorter than 320 samples, or a
/// network fails. Else the encoder is told the exact number of frames, and the
/// text is that of the tokens, with white space taken off its ends only.
pub proof fn recordings_become_text(
    model: GigaamModelView,
    audio: Seq<u32>,
    mel: MelFn,
    ctc: CtcFn,
    rnnt: EncoderFn,
    decode: DecoderFn,
    join: JoinerFn,
    n: i64,
)
    requires
        audio.len() <= usize::MAX,
        audio.len() >= 320 ==> n == 1 + (audio.len() - 320) / 160,
    ensures
        ({
            let r = transcript(model, audio, mel, ctc, rnnt, decode, join);
            let features = features_of(audio, mel);
            &&& audio.len() < 320 ==> r == Err::<Seq<char>, GigaamErrorView>(
                GigaamErrorView::AudioTooShort(320),
            )
            &&& audio.len() >= 320 && model.kind == GigaamKind::Ctc ==> match ctc(features, n) {
                Err(e) => r == Err::<Seq<char>, GigaamErrorView>(e),
                Ok(scores) => r == Ok::<Seq<char>, GigaamErrorView>(
                    trimmed(
                        token_texts(
                            ctc_collapse(
                                frame_labels(scores.data, scores.shape[1], scores.shape[2]),
                                model.blank,
                            ),
                            model.vocab,
                        ),
                    ),
                ),
            }
            &&& audio.len() >= 320 && model.kind == GigaamKind::Rnnt ==> match rnnt(features, n) {
                Err(e) => r == Err::<Seq<char>, GigaamErrorView>(e),
                Ok(enc) => match greedy_tokens(enc.0, enc.1, model.blank, decode, join) {
                    Err(e) => r == Err::<Seq<char>, GigaamErrorView>(e),
                    Ok(tokens) => r == Ok::<Seq<char>, GigaamErrorView>(
                        trimmed(token_texts(tokens, model.vocab)),
                    ),
                },
            }
        }),
{
}

/// A model has the vocabulary of its file and the blank token's id, whatever
/// its variant; without a blank token there is none.
pub proof fn model_has_its_vocabulary(kind: GigaamKind, entries: Seq<(Seq<char>, usize)>)
    ensures
        model_with(kind, entries) matches Ok(m) ==> {
            &&& m.kind == kind
            &&& m.vocab == vocab_table(entries)
            &&& Some(m.blank) == blank_id(entries)
        },
        model_with(kind, entries) is Ok <==> blank_id(entries) is Some,
{
}

/// The file of a network is named by the whole of the network's name; the
/// quantized one and the full one differ behind it, alike for every network.
pub proof fn files_are_named_by_network(base: Seq<char>, quantized: bool)
    ensures
        session_file_name(base, quantized) == base + session_file_name(Seq::empty(), quantized),
        session_file_name(base, true) != session_file_name(base, false),
{
    reveal_strlit(".int8.onnx");
    reveal_strlit(".onnx");
    assert(session_file_name(base, quantized) =~= base + session_file_name(
        Seq::empty(),
        quantized,
    ));
    assert(session_file_name(base, true).len() != session_file_name(base, false).len());
}

/// What the encoders give is taken as it is, and an output that is not there is
/// a failure by its name, the encoding's before that of the lengths.
pub proof fn encoder_outputs_are_taken_as_given(
    scores: Tensor,
    lengths: Vec<i32>,
    any: Output<Vec<i32>>,
    e: GigaamError,
)
    ensures
        scores_view(Ok(Output::Ready(scores))) == Ok::<TensorView, GigaamErrorView>(scores@),
        scores_view(Ok(Output::Missing)) == Err::<TensorView, GigaamErrorView>(
            GigaamErrorView::OutputNotFound("log_probs"@),
        ),
        scores_view(Err(e)) == Err::<TensorView, GigaamErrorView>(e@),
        encoding_view(
            Ok(
                EncoderOutputs {
                    encoded: Output::Ready(scores),
                    encoded_len: Output::Ready(lengths),
                },
            ),
        ) == Ok::<(TensorView, Seq<i32>), GigaamErrorView>((scores@, lengths@)),
        encoding_view(Ok(EncoderOutputs { encoded: Output::Missing, encoded_len: any })) == Err::<
            (TensorView, Seq<i32>),
            GigaamErrorView,
        >(GigaamErrorView::OutputNotFound("encoded"@)),
        encoding_view(
            Ok(EncoderOutputs { encoded: Output::Ready(scores), encoded_len: Output::Missing }),
        ) == Err::<(TensorView, Seq<i32>), GigaamErrorView>(
            GigaamErrorView::OutputNotFound("encoded_len"@),
        ),
        encoding_view(Err(e)) == Err::<(TensorView, Seq<i32>), GigaamErrorView>(e@),
{
}

/// Texts, models and failures stand for themselves.
pub proof fn results_stand_for_themselves(text: String, model: GigaamModel, e: GigaamError)
    ensures
        text_view(Ok(text)) == Ok::<Seq<char>, GigaamErrorView>(text@),
        text_view(Err(e)) == Err::<Seq<char>, GigaamErrorView>(e@),
        model_view(Ok(model)) == Ok::<GigaamModelView, GigaamErrorView>(model@),
        model_view(Err(e)) == Err::<GigaamModelView, GigaamErrorView>(e@),
{
}

/// There is a file for each network, in the networks' order: the quantized one
/// where it is wanted and exists, and the full one elsewhere, whatever is true
/// of the others.
pub proof fn each_network_has_its_file(
    kind: GigaamKind,
    quantized: bool,
    existing: Seq<bool>,
    i: int,
)
    requires
        0 <= i < session_names(kind).len(),
    ensures
        session_file_names(kind, quantized, existing).len() == session_names(kind).len(),
        session_file_names(kind, quantized, existing)[i] == session_file_name(
            session_names(kind)[i],
            quantized && existing[i],
        ),
{
}

} // verus!
