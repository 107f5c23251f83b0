//! Greedy transducer decoding.
//!
//! The decoder and the joiner are networks that run outside. A `Transducer`
//! says which of them runs next and on what, takes what came out, and collects
//! the tokens. The decoder's output is kept until a token is emitted, and its
//! new state is taken over only then.
use vstd::prelude::*;

use crate::error::{GigaamError, GigaamErrorView};
use crate::tensor::{
    argmax, argmax_of, output_error, take_output, volume, zeros_of, Output, Tensor, TensorView,
};

verus! {

/// The size of the decoder's hidden state.
pub const PRED_HIDDEN: usize = 320;

/// How many tokens one encoder frame can emit.
pub const MAX_TOKENS_PER_STEP: usize = 3;

/// What runs next.
#[derive(Debug)]
pub enum Step {
    /// The decoder, on the last token and the state `h`, `c`.
    Decode { x: i64, h: Tensor, c: Tensor },
    /// The joiner, on one encoder frame and the decoder's output.
    Join { enc: Tensor, dec: Tensor },
    /// Nothing: every frame is consumed.
    Done,
}

/// A `Step` with its tensors as values.
pub enum StepView {
    Decode { x: i64, h: TensorView, c: TensorView },
    Join { enc: TensorView, dec: TensorView },
    Done,
}

impl View for Step {
    type V = StepView;

    open spec fn view(&self) -> StepView {
        match self {
            Step::Decode { x, h, c } => StepView::Decode { x: *x, h: h@, c: c@ },
            Step::Join { enc, dec } => StepView::Join { enc: enc@, dec: dec@ },
            Step::Done => StepView::Done,
        }
    }
}

/// A decoding under way.
#[verifier::ext_equal]
pub struct TransducerView {
    /// The encoder's output: batch, features, frames, and dimensions of one.
    pub encoded: TensorView,
    /// How many frames are decoded.
    pub frames: nat,
    pub blank: usize,
    /// The decoder's state at the last token.
    pub h: TensorView,
    pub c: TensorView,
    /// The decoder's output for that state, once it has run.
    pub dec: Option<TensorView>,
    /// The state that the decoder's last run led to.
    pub pending_h: TensorView,
    pub pending_c: TensorView,
    pub tokens: Seq<usize>,
    /// The frame at hand.
    pub t: nat,
    /// How many tokens it has emitted.
    pub emitted: nat,
}

impl TransducerView {
    /// What every operation keeps.
    pub open spec fn wf(self) -> bool {
        &&& self.encoded.wf()
        &&& self.encoded.shape.len() >= 3
        &&& self.frames <= self.encoded.shape[2]
        &&& self.frames > 0 ==> self.encoded.shape[0] > 0
        &&& self.t <= self.frames
        &&& self.emitted < MAX_TOKENS_PER_STEP
        &&& self.t == self.frames ==> self.emitted == 0
        &&& !self.tokens.contains(self.blank)
        &&& self.tokens.len() <= MAX_TOKENS_PER_STEP * self.t + self.emitted
    }

    /// The token that the decoder reads: the last one, or the blank before any.
    pub open spec fn input(self) -> i64 {
        decoder_input(self.tokens, self.blank)
    }

    /// What runs next, or why nothing can.
    pub open spec fn next(self) -> Result<StepView, GigaamErrorView> {
        if self.t >= self.frames {
            Ok(StepView::Done)
        } else {
            match self.dec {
                None => Ok(StepView::Decode { x: self.input(), h: self.h, c: self.c }),
                Some(dec) => if is_frame_matrix(self.encoded.shape) {
                    Ok(
                        StepView::Join {
                            enc: frame_column(self.encoded, self.t as int),
                            dec: as_column(dec.data),
                        },
                    )
                } else {
                    Err(GigaamErrorView::Shape)
                },
            }
        }
    }

    /// The decoder has run.
    pub open spec fn after_decode(
        self,
        dec: TensorView,
        h: TensorView,
        c: TensorView,
    ) -> TransducerView {
        TransducerView { dec: Some(dec), pending_h: h, pending_c: c, ..self }
    }

    /// The joiner has chosen `token`.
    pub open spec fn after_join(self, token: usize) -> TransducerView {
        if token == self.blank {
            TransducerView { t: self.t + 1, emitted: 0, ..self }
        } else {
            let full = self.emitted + 1 == MAX_TOKENS_PER_STEP;
            TransducerView {
                h: self.pending_h,
                c: self.pending_c,
                dec: None,
                tokens: self.tokens.push(token),
                t: if full {
                    self.t + 1
                } else {
                    self.t
                },
                emitted: if full {
                    0
                } else {
                    self.emitted + 1
                },
                ..self
            }
        }
    }
}

/// The last token, or the blank before any, as the decoder takes it.
pub open spec fn decoder_input(tokens: Seq<usize>, blank: usize) -> i64 {
    if tokens.len() == 0 {
        blank as i64
    } else {
        tokens.last() as i64
    }
}

/// A frame of a tensor of this shape has one value for each feature.
pub open spec fn is_frame_matrix(shape: Seq<usize>) -> bool {
    shape[1] == 0 || forall|i: int| 3 <= i < shape.len() ==> #[trigger] shape[i] == 1
}

/// The features of frame `t` of the first batch, as the joiner takes them.
pub open spec fn frame_column(encoded: TensorView, t: int) -> TensorView {
    as_column(
        Seq::new(
            encoded.shape[1] as nat,
            |k: int| encoded.data[k * encoded.shape[2] as int + t],
        ),
    )
}

/// A column with the given elements: one batch, one frame.
pub open spec fn as_column(data: Seq<u32>) -> TensorView {
    TensorView { shape: seq![1usize, data.len() as usize, 1usize], data }
}

/// How many of `limit` frames are valid, by the encoder's lengths. A negative
/// length does not shorten.
pub open spec fn valid_frames(lengths: Seq<i32>, limit: usize) -> nat {
    let n: int = if lengths.len() == 0 {
        0
    } else {
        lengths[0] as int
    };
    if 0 <= n <= limit {
        n as nat
    } else {
        limit as nat
    }
}

/// A decoding of `encoded` before its first step.
pub open spec fn started(
    encoded: TensorView,
    lengths: Seq<i32>,
    blank: usize,
) -> TransducerView {
    let zeros = zeros_of(seq![1usize, 1usize, PRED_HIDDEN], PRED_HIDDEN as nat);
    TransducerView {
        encoded,
        frames: valid_frames(lengths, encoded.shape[2]),
        blank,
        h: zeros,
        c: zeros,
        dec: None,
        pending_h: zeros,
        pending_c: zeros,
        tokens: Seq::empty(),
        t: 0,
        emitted: 0,
    }
}

/// Where the encoder gave both outputs, the encoding has batch, features and
/// frames, and a batch if a frame is to be decoded.
pub open spec fn frames_addressable(
    encoded: Output<Tensor>,
    lengths: Output<Vec<i32>>,
) -> bool {
    match (encoded, lengths) {
        (Output::Ready(e), Output::Ready(n)) => {
            &&& e@.wf()
            &&& e@.shape.len() >= 3
            &&& valid_frames(n@, e@.shape[2]) > 0 ==> e@.shape[0] > 0
        },
        _ => true,
    }
}

/// The failure that the encoder's outputs amount to.
pub open spec fn encoder_error(
    encoded: Output<Tensor>,
    lengths: Output<Vec<i32>>,
) -> Option<GigaamErrorView> {
    match output_error(encoded, "encoded"@) {
        Some(e) => Some(e),
        None => output_error(lengths, "encoded_len"@),
    }
}

/// The failure that the decoder's outputs amount to.
pub open spec fn decoder_error(
    dec: Output<Tensor>,
    h: Output<Tensor>,
    c: Output<Tensor>,
) -> Option<GigaamErrorView> {
    match output_error(dec, "dec"@) {
        Some(e) => Some(e),
        None => match output_error(h, "h"@) {
            Some(e) => Some(e),
            None => output_error(c, "c"@),
        },
    }
}

/// A greedy transducer decoding of one recording.
pub struct Transducer {
    encoded: Tensor,
    frames: usize,
    blank: usize,
    h: Tensor,
    c: Tensor,
    dec: Option<Tensor>,
    pending_h: Tensor,
    pending_c: Tensor,
    tokens: Vec<usize>,
    t: usize,
    emitted: usize,
}

impl View for Transducer {
    type V = TransducerView;

    closed spec fn view(&self) -> TransducerView {
        TransducerView {
            encoded: self.encoded@,
            frames: self.frames as nat,
            blank: self.blank,
            h: self.h@,
            c: self.c@,
            dec: match self.dec {
                Some(d) => Some(d@),
                None => None,
            },
            pending_h: self.pending_h@,
            pending_c: self.pending_c@,
            tokens: self.tokens@,
            t: self.t as nat,
            emitted: self.emitted as nat,
        }
    }
}

fn hidden_zeros() -> (r: Tensor)
    ensures
        r@ == zeros_of(seq![1usize, 1usize, PRED_HIDDEN], PRED_HIDDEN as nat),
{
    let mut shape: Vec<usize> = Vec::new();
    shape.push(1);
    shape.push(1);
    shape.push(PRED_HIDDEN);
    let mut data: Vec<u32> = Vec::new();
    while data.len() < PRED_HIDDEN
        invariant
            data.len() <= PRED_HIDDEN,
            forall|i: int| 0 <= i < data.len() ==> data@[i] == 0,
        decreases PRED_HIDDEN - data.len(),
    {
        data.push(0);
    }
    let r = Tensor { shape, data };
    assert(r@.shape =~= seq![1usize, 1usize, PRED_HIDDEN]);
    assert(r@.data =~= Seq::new(PRED_HIDDEN as nat, |i: int| 0u32));
    r
}

fn column(data: Vec<u32>) -> (r: Tensor)
    ensures
        r@ == as_column(data@),
{
    let mut shape: Vec<usize> = Vec::new();
    shape.push(1);
    shape.push(data.len());
    shape.push(1);
    let r = Tensor { shape, data };
    assert(r@.shape =~= seq![1usize, data@.len() as usize, 1usize]);
    r
}

proof fn lemma_volume_of_ones(shape: Seq<usize>)
    requires
        forall|i: int| 0 <= i < shape.len() ==> #[trigger] shape[i] == 1,
    ensures
        volume(shape) == 1,
    decreases shape.len(),
{
    if shape.len() > 0 {
        lemma_volume_of_ones(shape.drop_first());
    }
}

/// The elements of a batch of frames are there.
proof fn lemma_frame_in_range(e: TensorView, k: int, t: int)
    requires
        e.wf(),
        e.shape.len() >= 3,
        e.shape[0] > 0,
        is_frame_matrix(e.shape),
        0 <= k < e.shape[1],
        0 <= t < e.shape[2],
    ensures
        0 <= k * e.shape[2] + t < e.data.len(),
{
    let rest = e.shape.skip(3);
    lemma_volume_of_ones(rest);
    let s1 = e.shape.drop_first();
    let s2 = s1.drop_first();
    assert(s2.drop_first() =~= rest);
    assert(s1.first() == e.shape[1]);
    assert(s2.first() == e.shape[2]);
    let b = e.shape[0] as int;
    let d = e.shape[1] as int;
    let n = e.shape[2] as int;
    assert(volume(s2) == n) by (nonlinear_arith)
        requires
            volume(s2) == n * 1,
    ;
    assert(volume(s1) == d * n);
    assert(volume(e.shape) == b * (d * n));
    assert(0 <= k * n + t < b * (d * n)) by (nonlinear_arith)
        requires
            0 <= k < d,
            0 <= t < n,
            b >= 1,
    ;
}

impl Transducer {
    /// A decoding of what the encoder gave.
    pub fn new(
        encoded: Output<Tensor>,
        encoded_len: Output<Vec<i32>>,
        blank: usize,
    ) -> (r: Result<Transducer, GigaamError>)
        requires
            frames_addressable(encoded, encoded_len),
        ensures
            match r {
                Ok(d) => {
                    &&& encoded matches Output::Ready(e)
                    &&& encoded_len matches Output::Ready(n)
                    &&& d@ == started(e@, n@, blank)
                    &&& d@.wf()
                },
                Err(e) => encoder_error(encoded, encoded_len) == Some(e@),
            },
    {
        let encoded = match take_output(encoded, "encoded") {
            Ok(v) => v,
            Err(e) => {
                return Err(e);
            },
        };
        let lengths = match take_output(encoded_len, "encoded_len") {
            Ok(v) => v,
            Err(e) => {
                return Err(e);
            },
        };
        let limit: usize = encoded.shape[2];
        let n: i32 = if lengths.len() == 0 {
            0
        } else {
            lengths[0]
        };
        let frames: usize = if n >= 0 && (n as u32) as u64 <= limit as u64 {
            n as usize
        } else {
            limit
        };
        Ok(
            Transducer {
                encoded,
                frames,
                blank,
                h: hidden_zeros(),
                c: hidden_zeros(),
                dec: None,
                pending_h: hidden_zeros(),
                pending_c: hidden_zeros(),
                tokens: Vec::new(),
                t: 0,
                emitted: 0,
            },
        )
    }

    /// Says what runs next.
    pub fn next(&self) -> (r: Result<Step, GigaamError>)
        requires
            self@.wf(),
        ensures
            match r {
                Ok(step) => self@.next() == Ok::<StepView, GigaamErrorView>(step@),
                Err(e) => self@.next() == Err::<StepView, GigaamErrorView>(e@),
            },
    {
        if self.t >= self.frames {
            return Ok(Step::Done);
        }
        match &self.dec {
            None => {
                let n: usize = self.tokens.len();
                let x: i64 = if n == 0 {
                    self.blank as i64
                } else {
                    self.tokens[n - 1] as i64
                };
                Ok(Step::Decode { x, h: self.h.duplicate(), c: self.c.duplicate() })
            },
            Some(dec) => {
                if !self.has_frame_matrix() {
                    return Err(GigaamError::Shape);
                }
                let enc = self.current_frame();
                Ok(Step::Join { enc, dec: column(dec.duplicate().data) })
            },
        }
    }

    fn has_frame_matrix(&self) -> (r: bool)
        requires
            self@.wf(),
        ensures
            r == is_frame_matrix(self@.encoded.shape),
    {
        if self.encoded.shape[1] == 0 {
            return true;
        }
        let mut i: usize = 3;
        while i < self.encoded.shape.len()
            invariant
                3 <= i <= self.encoded.shape.len(),
                self.encoded.shape@[1] != 0,
                forall|j: int| 3 <= j < i ==> #[trigger] self.encoded.shape@[j] == 1,
            decreases self.encoded.shape.len() - i,
        {
            if self.encoded.shape[i] != 1 {
                return false;
            }
            i = i + 1;
        }
        true
    }

    fn current_frame(&self) -> (r: Tensor)
        requires
            self@.wf(),
            self@.t < self@.frames,
            is_frame_matrix(self@.encoded.shape),
        ensures
            r@ == frame_column(self@.encoded, self@.t as int),
    {
        let d: usize = self.encoded.shape[1];
        let n: usize = self.encoded.shape[2];
        let mut data: Vec<u32> = Vec::new();
        let mut k: usize = 0;
        while k < d
            invariant
                self@.wf(),
                self@.t < self@.frames,
                is_frame_matrix(self@.encoded.shape),
                d == self.encoded@.shape[1],
                n == self.encoded@.shape[2],
                k <= d,
                data.len() == k,
                forall|j: int|
                    0 <= j < k ==> #[trigger] data@[j] == self.encoded@.data[j * n as int + self.t],
            decreases d - k,
        {
            proof {
                lemma_frame_in_range(self.encoded@, k as int, self.t as int);
                assert(self.encoded.data.len() == self.encoded@.data.len());
                assert(0 <= k * n <= usize::MAX) by (nonlinear_arith)
                    requires
                        0 <= k,
                        0 <= n,
                        k * n + self.t <= usize::MAX,
                        0 <= self.t,
                ;
            }
            data.push(self.encoded.data[k * n + self.t]);
            k = k + 1;
        }
        assert(data@ =~= Seq::new(
            self.encoded@.shape[1] as nat,
            |k: int| self.encoded@.data[k * self.encoded@.shape[2] as int + self.t],
        ));
        column(data)
    }

    /// Takes what the decoder gave.
    pub fn decoded(
        &mut self,
        dec: Output<Tensor>,
        h: Output<Tensor>,
        c: Output<Tensor>,
    ) -> (r: Result<(), GigaamError>)
        requires
            old(self)@.wf(),
        ensures
            final(self)@.wf(),
            match r {
                Ok(_) => {
                    &&& dec matches Output::Ready(d)
                    &&& h matches Output::Ready(h)
                    &&& c matches Output::Ready(c)
                    &&& final(self)@ == old(self)@.after_decode(d@, h@, c@)
                },
                Err(e) => {
                    &&& decoder_error(dec, h, c) == Some(e@)
                    &&& final(self)@ == old(self)@
                },
            },
    {
        let dec = match take_output(dec, "dec") {
            Ok(v) => v,
            Err(e) => {
                return Err(e);
            },
        };
        let h = match take_output(h, "h") {
            Ok(v) => v,
            Err(e) => {
                return Err(e);
            },
        };
        let c = match take_output(c, "c") {
            Ok(v) => v,
            Err(e) => {
                return Err(e);
            },
        };
        self.dec = Some(dec);
        self.pending_h = h;
        self.pending_c = c;
        Ok(())
    }

    /// Takes what the joiner gave: the greatest of its scores names the token.
    pub fn joined(&mut self, joint: Output<Tensor>) -> (r: Result<(), GigaamError>)
        requires
            old(self)@.wf(),
            old(self)@.t < old(self)@.frames,
        ensures
            final(self)@.wf(),
            match r {
                Ok(_) => {
                    &&& joint matches Output::Ready(j)
                    &&& final(self)@ == old(self)@.after_join(argmax_of(j@.data) as usize)
                },
                Err(e) => {
                    &&& output_error(joint, "joint"@) == Some(e@)
                    &&& final(self)@ == old(self)@
                },
            },
    {
        let joint = match take_output(joint, "joint") {
            Ok(v) => v,
            Err(e) => {
                return Err(e);
            },
        };
        let token: usize = argmax(joint.data.as_slice());
        let ghost before = self@;
        if token != self.blank {
            self.h = self.pending_h.duplicate();
            self.c = self.pending_c.duplicate();
            self.dec = None;
            self.tokens.push(token);
            self.emitted = self.emitted + 1;
            proof {
                assert forall|i: int| 0 <= i < self.tokens@.len() implies #[trigger] self.tokens@[i]
                    != self.blank by {
                    if i < before.tokens.len() {
                        assert(before.tokens.contains(before.tokens[i]));
                    }
                }
            }
        }
        if token == self.blank || self.emitted == MAX_TOKENS_PER_STEP {
            self.t = self.t + 1;
            self.emitted = 0;
        }
        Ok(())
    }

    /// The tokens of a decoding that is over.
    pub fn into_tokens(self) -> (r: Vec<usize>)
        ensures
            r@ == self@.tokens,
    {
        self.tokens
    }

    /// The tokens so far.
    pub fn tokens(&self) -> (r: &Vec<usize>)
        ensures
            r@ == self@.tokens,
    {
        &self.tokens
    }
}

/// A network that decodes: from the last token and a state to an output and the
/// next state, or a failure.
pub type DecoderFn = spec_fn(i64, TensorView, TensorView) -> Result<
    (TensorView, TensorView, TensorView),
    GigaamErrorView,
>;

/// A network that joins an encoder frame and a decoder output into scores, or a
/// failure.
pub type JoinerFn = spec_fn(TensorView, TensorView) -> Result<Seq<u32>, GigaamErrorView>;

/// Where a decoding that stands at `s` ends when each step it asks for is run
/// by `decode` or `join` and the outcome handed back.
pub open spec fn driven(s: TransducerView, decode: DecoderFn, join: JoinerFn) -> Result<
    Seq<usize>,
    GigaamErrorView,
>
    decreases
            s.frames - s.t,
            MAX_TOKENS_PER_STEP - s.emitted,
            if s.dec is None {
                1int
            } else {
                0int
            },
{
    if s.emitted >= MAX_TOKENS_PER_STEP {
        Ok(s.tokens)
    } else {
        match s.next() {
            Ok(StepView::Decode { x, h, c }) => match decode(x, h, c) {
                Ok(out) => driven(s.after_decode(out.0, out.1, out.2), decode, join),
                Err(e) => Err(e),
            },
            Ok(StepView::Join { enc, dec }) => match join(enc, dec) {
                Ok(scores) => driven(s.after_join(argmax_of(scores) as usize), decode, join),
                Err(e) => Err(e),
            },
            Ok(StepView::Done) => Ok(s.tokens),
            Err(e) => Err(e),
        }
    }
}

/// Greedy transducer decoding from frame `t` on, with the decoder run anew for
/// every choice: the best token joins the text and moves the state; the blank,
/// or the last token that a frame may emit, moves to the next frame.
pub open spec fn greedy(
    encoded: TensorView,
    frames: nat,
    blank: usize,
    t: nat,
    emitted: nat,
    h: TensorView,
    c: TensorView,
    tokens: Seq<usize>,
    decode: DecoderFn,
    join: JoinerFn,
) -> Result<Seq<usize>, GigaamErrorView>
    decreases frames - t, MAX_TOKENS_PER_STEP - emitted,
{
    if t >= frames || emitted >= MAX_TOKENS_PER_STEP {
        Ok(tokens)
    } else {
        match decode(decoder_input(tokens, blank), h, c) {
            Err(e) => Err(e),
            Ok(out) => if !is_frame_matrix(encoded.shape) {
                Err(GigaamErrorView::Shape)
            } else {
                match join(frame_column(encoded, t as int), as_column(out.0.data)) {
                    Err(e) => Err(e),
                    Ok(scores) => {
                        let token = argmax_of(scores) as usize;
                        let more = tokens.push(token);
                        if token == blank {
                            greedy(encoded, frames, blank, t + 1, 0, h, c, tokens, decode, join)
                        } else if emitted + 1 == MAX_TOKENS_PER_STEP {
                            greedy(
                                encoded,
                                frames,
                                blank,
                                t + 1,
                                0,
                                out.1,
                                out.2,
                                more,
                                decode,
                                join,
                            )
                        } else {
                            greedy(
                                encoded,
                                frames,
                                blank,
                                t,
                                emitted + 1,
                                out.1,
                                out.2,
                                more,
                                decode,
                                join,
                            )
                        }
                    },
                }
            },
        }
    }
}

/// Keeping the decoder's output between tokens changes nothing: a transducer
/// whose kept output, if any, is what the decoder gives on its state ends where
/// greedy decoding ends.
pub proof fn driven_is_greedy(s: TransducerView, decode: DecoderFn, join: JoinerFn)
    requires
        s.dec matches Some(dec) ==> decode(s.input(), s.h, s.c) == Ok::<
            (TensorView, TensorView, TensorView),
            GigaamErrorView,
        >((dec, s.pending_h, s.pending_c)),
    ensures
        driven(s, decode, join) == greedy(
            s.encoded,
            s.frames,
            s.blank,
            s.t,
            s.emitted,
            s.h,
            s.c,
            s.tokens,
            decode,
            join,
        ),
    decreases
            s.frames - s.t,
            MAX_TOKENS_PER_STEP - s.emitted,
            if s.dec is None {
                1int
            } else {
                0int
            },
{
    if s.t < s.frames && s.emitted < MAX_TOKENS_PER_STEP {
        match s.dec {
            None => {
                if let Ok(out) = decode(s.input(), s.h, s.c) {
                    driven_is_greedy(s.after_decode(out.0, out.1, out.2), decode, join);
                }
            },
            Some(dec) => {
                if let Ok(scores) = join(
                    frame_column(s.encoded, s.t as int),
                    as_column(dec.data),
                ) {
                    driven_is_greedy(s.after_join(argmax_of(scores) as usize), decode, join);
                }
            },
        }
    }
}

/// Greedy transducer decoding from the first frame on, in the zero state.
pub open spec fn greedy_tokens(
    encoded: TensorView,
    lengths: Seq<i32>,
    blank: usize,
    decode: DecoderFn,
    join: JoinerFn,
) -> Result<Seq<usize>, GigaamErrorView> {
    let zeros = zeros_of(seq![1usize, 1usize, PRED_HIDDEN], PRED_HIDDEN as nat);
    greedy(
        encoded,
        valid_frames(lengths, encoded.shape[2]),
        blank,
        0,
        0,
        zeros,
        zeros,
        Seq::empty(),
        decode,
        join,
    )
}

/// A decoding that starts with what the encoder gave ends where greedy decoding
/// ends.
pub proof fn started_is_greedy(
    encoded: TensorView,
    lengths: Seq<i32>,
    blank: usize,
    decode: DecoderFn,
    join: JoinerFn,
)
    ensures
        driven(started(encoded, lengths, blank), decode, join) == greedy_tokens(
            encoded,
            lengths,
            blank,
            decode,
            join,
        ),
{
    driven_is_greedy(started(encoded, lengths, blank), decode, join);
}

/// A joiner's choice at a frame keeps what holds of every decoding.
pub proof fn join_keeps_wf(s: TransducerView, token: usize)
    requires
        s.wf(),
        s.t < s.frames,
    ensures
        s.after_join(token).wf(),
{
    let next = s.after_join(token);
    assert forall|i: int| 0 <= i < next.tokens.len() implies #[trigger] next.tokens[i]
        != s.blank by {
        if i < s.tokens.len() {
            assert(s.tokens.contains(s.tokens[i]));
        }
    }
}

/// The blank leaves the decoder's state and its kept output as they are; any
/// other token takes the pending state over and asks for a new output.
pub proof fn blank_keeps_decoder_state(s: TransducerView, token: usize)
    ensures
        ({
            let next = s.after_join(token);
            if token == s.blank {
                &&& next.h == s.h && next.c == s.c && next.dec == s.dec
                &&& next.tokens == s.tokens && next.t == s.t + 1
            } else {
                &&& next.h == s.pending_h && next.c == s.pending_c && next.dec is None
                &&& next.tokens == s.tokens.push(token)
            }
        }),
{
}

/// What a run of the decoder gave.
#[derive(Debug)]
pub struct DecoderOutputs {
    pub dec: Output<Tensor>,
    pub h: Output<Tensor>,
    pub c: Output<Tensor>,
}

/// A run of the decoder, as values.
pub open spec fn decode_view(out: Result<DecoderOutputs, GigaamError>) -> Result<
    (TensorView, TensorView, TensorView),
    GigaamErrorView,
> {
    match out {
        Err(e) => Err(e@),
        Ok(o) => match (o.dec, o.h, o.c) {
            (Output::Ready(dec), Output::Ready(h), Output::Ready(c)) => Ok((dec@, h@, c@)),
            _ => Err(decoder_error(o.dec, o.h, o.c).unwrap()),
        },
    }
}

/// A run of the joiner, as values.
pub open spec fn join_view(out: Result<Output<Tensor>, GigaamError>) -> Result<
    Seq<u32>,
    GigaamErrorView,
> {
    match out {
        Err(e) => Err(e@),
        Ok(Output::Ready(j)) => Ok(j@.data),
        Ok(o) => Err(output_error(o, "joint"@).unwrap()),
    }
}

/// Every run of `decode` gives what `f` says.
pub open spec fn decodes_as<D>(decode: D, f: DecoderFn) -> bool where
    D: Fn(i64, Tensor, Tensor) -> Result<DecoderOutputs, GigaamError>,
 {
    forall|x: i64, h: Tensor, c: Tensor, out: Result<DecoderOutputs, GigaamError>|
        #[trigger] call_ensures(decode, (x, h, c), out) ==> decode_view(out) == f(x, h@, c@)
}

/// Every run of `join` gives what `f` says.
pub open spec fn joins_as<J>(join: J, f: JoinerFn) -> bool where
    J: Fn(Tensor, Tensor) -> Result<Output<Tensor>, GigaamError>,
 {
    forall|enc: Tensor, dec: Tensor, out: Result<Output<Tensor>, GigaamError>|
        #[trigger] call_ensures(join, (enc, dec), out) ==> join_view(out) == f(enc@, dec@)
}

/// A decoding that stands at `s` can end with `r`: some runs of `decode` and
/// `join`, each on what the step before asks for, lead there.
pub open spec fn can_end<D, J>(
    s: TransducerView,
    decode: D,
    join: J,
    r: Result<Seq<usize>, GigaamErrorView>,
) -> bool where
    D: Fn(i64, Tensor, Tensor) -> Result<DecoderOutputs, GigaamError>,
    J: Fn(Tensor, Tensor) -> Result<Output<Tensor>, GigaamError>,

    decreases
            s.frames - s.t,
            MAX_TOKENS_PER_STEP - s.emitted,
            if s.dec is None {
                1int
            } else {
                0int
            },
{
    if s.emitted >= MAX_TOKENS_PER_STEP {
        r == Ok::<Seq<usize>, GigaamErrorView>(s.tokens)
    } else {
        match s.next() {
            Ok(StepView::Decode { x, h, c }) => exists|
                x0: i64,
                h0: Tensor,
                c0: Tensor,
                out: Result<DecoderOutputs, GigaamError>,
            |
                {
                    &&& #[trigger] call_ensures(decode, (x0, h0, c0), out)
                    &&& x0 == x && h0@ == h && c0@ == c
                    &&& match decode_view(out) {
                        Ok(o) => can_end(s.after_decode(o.0, o.1, o.2), decode, join, r),
                        Err(e) => r == Err::<Seq<usize>, GigaamErrorView>(e),
                    }
                },
            Ok(StepView::Join { enc, dec }) => exists|
                enc0: Tensor,
                dec0: Tensor,
                out: Result<Output<Tensor>, GigaamError>,
            |
                {
                    &&& #[trigger] call_ensures(join, (enc0, dec0), out)
                    &&& enc0@ == enc && dec0@ == dec
                    &&& match join_view(out) {
                        Ok(scores) => can_end(
                            s.after_join(argmax_of(scores) as usize),
                            decode,
                            join,
                            r,
                        ),
                        Err(e) => r == Err::<Seq<usize>, GigaamErrorView>(e),
                    }
                },
            Ok(StepView::Done) => r == Ok::<Seq<usize>, GigaamErrorView>(s.tokens),
            Err(e) => r == Err::<Seq<usize>, GigaamErrorView>(e),
        }
    }
}

proof fn lemma_decode_step<D, J>(
    s: TransducerView,
    decode: D,
    join: J,
    x: i64,
    h: Tensor,
    c: Tensor,
    out: Result<DecoderOutputs, GigaamError>,
) where
    D: Fn(i64, Tensor, Tensor) -> Result<DecoderOutputs, GigaamError>,
    J: Fn(Tensor, Tensor) -> Result<Output<Tensor>, GigaamError>,

    requires
        s.emitted < MAX_TOKENS_PER_STEP,
        s.next() == Ok::<StepView, GigaamErrorView>(StepView::Decode { x, h: h@, c: c@ }),
        call_ensures(decode, (x, h, c), out),
    ensures
        match decode_view(out) {
            Ok(o) => forall|r: Result<Seq<usize>, GigaamErrorView>| #[trigger]
                can_end(s.after_decode(o.0, o.1, o.2), decode, join, r) ==> can_end(
                    s,
                    decode,
                    join,
                    r,
                ),
            Err(e) => can_end(s, decode, join, Err(e)),
        },
{
}

proof fn lemma_join_step<D, J>(
    s: TransducerView,
    decode: D,
    join: J,
    enc: Tensor,
    dec: Tensor,
    out: Result<Output<Tensor>, GigaamError>,
) where
    D: Fn(i64, Tensor, Tensor) -> Result<DecoderOutputs, GigaamError>,
    J: Fn(Tensor, Tensor) -> Result<Output<Tensor>, GigaamError>,

    requires
        s.emitted < MAX_TOKENS_PER_STEP,
        s.next() == Ok::<StepView, GigaamErrorView>(StepView::Join { enc: enc@, dec: dec@ }),
        call_ensures(join, (enc, dec), out),
    ensures
        match join_view(out) {
            Ok(scores) => forall|r: Result<Seq<usize>, GigaamErrorView>| #[trigger]
                can_end(s.after_join(argmax_of(scores) as usize), decode, join, r) ==> can_end(
                    s,
                    decode,
                    join,
                    r,
                ),
            Err(e) => can_end(s, decode, join, Err(e)),
        },
{
}

/// Where the networks are functions, a decoding ends in one way.
pub proof fn end_is_determined<D, J>(
    s: TransducerView,
    decode: D,
    join: J,
    r: Result<Seq<usize>, GigaamErrorView>,
    decoder_fn: DecoderFn,
    joiner_fn: JoinerFn,
) where
    D: Fn(i64, Tensor, Tensor) -> Result<DecoderOutputs, GigaamError>,
    J: Fn(Tensor, Tensor) -> Result<Output<Tensor>, GigaamError>,

    requires
        decodes_as(decode, decoder_fn),
        joins_as(join, joiner_fn),
        can_end(s, decode, join, r),
    ensures
        r == driven(s, decoder_fn, joiner_fn),
    decreases
            s.frames - s.t,
            MAX_TOKENS_PER_STEP - s.emitted,
            if s.dec is None {
                1int
            } else {
                0int
            },
{
    if s.t < s.frames && s.emitted < MAX_TOKENS_PER_STEP {
        match s.next() {
            Ok(StepView::Decode { x, h, c }) => {
                if let Ok(o) = decoder_fn(x, h, c) {
                    end_is_determined(
                        s.after_decode(o.0, o.1, o.2),
                        decode,
                        join,
                        r,
                        decoder_fn,
                        joiner_fn,
                    );
                }
            },
            Ok(StepView::Join { enc, dec }) => {
                if let Ok(scores) = joiner_fn(enc, dec) {
                    end_is_determined(
                        s.after_join(argmax_of(scores) as usize),
                        decode,
                        join,
                        r,
                        decoder_fn,
                        joiner_fn,
                    );
                }
            },
            _ => {},
        }
    }
}

/// Whatever the networks answer, a decoding emits no blank and at most
/// `MAX_TOKENS_PER_STEP` tokens for each frame, and keeps the tokens it has.
pub proof fn tokens_are_bounded<D, J>(
    s: TransducerView,
    decode: D,
    join: J,
    tokens: Seq<usize>,
) where
    D: Fn(i64, Tensor, Tensor) -> Result<DecoderOutputs, GigaamError>,
    J: Fn(Tensor, Tensor) -> Result<Output<Tensor>, GigaamError>,

    requires
        s.wf(),
        can_end(s, decode, join, Ok(tokens)),
    ensures
        tokens.len() <= MAX_TOKENS_PER_STEP * s.frames,
        !tokens.contains(s.blank),
        s.tokens.is_prefix_of(tokens),
    decreases
            s.frames - s.t,
            MAX_TOKENS_PER_STEP - s.emitted,
            if s.dec is None {
                1int
            } else {
                0int
            },
{
    match s.next() {
        Ok(StepView::Decode { x, h, c }) => {
            let o = choose|o: (TensorView, TensorView, TensorView)|
                can_end(#[trigger] s.after_decode(o.0, o.1, o.2), decode, join, Ok(tokens));
            tokens_are_bounded(s.after_decode(o.0, o.1, o.2), decode, join, tokens);
        },
        Ok(StepView::Join { enc, dec }) => {
            let token = choose|token: usize|
                can_end(#[trigger] s.after_join(token), decode, join, Ok(tokens));
            let next = s.after_join(token);
            join_keeps_wf(s, token);
            tokens_are_bounded(next, decode, join, tokens);
            assert(s.tokens =~= next.tokens.take(s.tokens.len() as int));
            assert(s.tokens =~= tokens.take(s.tokens.len() as int));
        },
        _ => {
            assert(s.tokens =~= s.tokens.take(s.tokens.len() as int));
        },
    }
}

/// Tokens or a failure, as values.
pub open spec fn tokens_view(
    r: Result<Vec<usize>, GigaamError>,
) -> Result<Seq<usize>, GigaamErrorView> {
    match r {
        Ok(tokens) => Ok(tokens@),
        Err(e) => Err(e@),
    }
}

/// `r` can come out of a decoding with `decode` and `join`. A failure of the
/// encoder's outputs comes first.
pub open spec fn is_decoding<D, J>(
    encoded: Output<Tensor>,
    encoded_len: Output<Vec<i32>>,
    blank: usize,
    decode: D,
    join: J,
    r: Result<Seq<usize>, GigaamErrorView>,
) -> bool where
    D: Fn(i64, Tensor, Tensor) -> Result<DecoderOutputs, GigaamError>,
    J: Fn(Tensor, Tensor) -> Result<Output<Tensor>, GigaamError>,
 {
    match (encoded, encoded_len) {
        (Output::Ready(e), Output::Ready(n)) => can_end(started(e@, n@, blank), decode, join, r),
        _ => {
            &&& encoder_error(encoded, encoded_len) matches Some(x)
            &&& r == Err::<Seq<usize>, GigaamErrorView>(x)
        },
    }
}

/// Where the networks are functions, a decoding of what the encoder gave is
/// greedy decoding with them.
pub proof fn decoding_is_greedy<D, J>(
    encoded: Tensor,
    lengths: Vec<i32>,
    blank: usize,
    decode: D,
    join: J,
    r: Result<Seq<usize>, GigaamErrorView>,
    decoder_fn: DecoderFn,
    joiner_fn: JoinerFn,
) where
    D: Fn(i64, Tensor, Tensor) -> Result<DecoderOutputs, GigaamError>,
    J: Fn(Tensor, Tensor) -> Result<Output<Tensor>, GigaamError>,

    requires
        decodes_as(decode, decoder_fn),
        joins_as(join, joiner_fn),
        is_decoding(Output::Ready(encoded), Output::Ready(lengths), blank, decode, join, r),
    ensures
        r == greedy_tokens(encoded@, lengths@, blank, decoder_fn, joiner_fn),
{
    let first = started(encoded@, lengths@, blank);
    end_is_determined(first, decode, join, r, decoder_fn, joiner_fn);
    started_is_greedy(encoded@, lengths@, blank, decoder_fn, joiner_fn);
}

/// Decodes what the encoder gave, with `decode` and `join` to run the two
/// networks.
pub fn run_rnnt<D, J>(
    encoded: Output<Tensor>,
    encoded_len: Output<Vec<i32>>,
    blank: usize,
    decode: D,
    join: J,
) -> (r: Result<Vec<usize>, GigaamError>) where
    D: Fn(i64, Tensor, Tensor) -> Result<DecoderOutputs, GigaamError>,
    J: Fn(Tensor, Tensor) -> Result<Output<Tensor>, GigaamError>,

    requires
        frames_addressable(encoded, encoded_len),
        forall|x: i64, h: Tensor, c: Tensor| call_requires(decode, (x, h, c)),
        forall|enc: Tensor, dec: Tensor| call_requires(join, (enc, dec)),
    ensures
        is_decoding(encoded, encoded_len, blank, decode, join, tokens_view(r)),
{
    let mut s = match Transducer::new(encoded, encoded_len, blank) {
        Ok(s) => s,
        Err(e) => {
            return Err(e);
        },
    };
    let ghost first = s@;
    loop
        invariant
            s@.wf(),
            forall|x: i64, h: Tensor, c: Tensor| call_requires(decode, (x, h, c)),
            forall|enc: Tensor, dec: Tensor| call_requires(join, (enc, dec)),
            encoded matches Output::Ready(e) && encoded_len matches Output::Ready(n) && first
                == started(e@, n@, blank),
            forall|r: Result<Seq<usize>, GigaamErrorView>| #[trigger]
                can_end(s@, decode, join, r) ==> can_end(first, decode, join, r),
        decreases
                s@.frames - s@.t,
                MAX_TOKENS_PER_STEP - s@.emitted,
                if s@.dec is None {
                    1int
                } else {
                    0int
                },
    {
        let ghost at = s@;
        match s.next() {
            Err(e) => {
                assert(can_end(at, decode, join, Err(e@)));
                return Err(e);
            },
            Ok(Step::Done) => {
                assert(can_end(at, decode, join, Ok(at.tokens)));
                return Ok(s.into_tokens());
            },
            Ok(Step::Decode { x, h, c }) => {
                let out = decode(x, h, c);
                proof {
                    lemma_decode_step(at, decode, join, x, h, c, out);
                }
                match out {
                    Err(e) => {
                        return Err(e);
                    },
                    Ok(out) => match s.decoded(out.dec, out.h, out.c) {
                        Err(e) => {
                            return Err(e);
                        },
                        Ok(_) => {},
                    },
                }
            },
            Ok(Step::Join { enc, dec }) => {
                let out = join(enc, dec);
                proof {
                    lemma_join_step(at, decode, join, enc, dec, out);
                }
                match out {
                    Err(e) => {
                        return Err(e);
                    },
                    Ok(joint) => match s.joined(joint) {
                        Err(e) => {
                            return Err(e);
                        },
                        Ok(_) => {},
                    },
                }
            },
        }
    }
}

/// Frame `t` of the encoding is what stands at batch 0, feature `k` and frame
/// `t` of the encoder's output, for every feature and every frame. The joiner
/// gets it as one batch with one value for each feature.
pub proof fn frame_is_read_at_its_place(encoded: TensorView, t: int, k: int)
    requires
        0 <= k < encoded.shape[1],
        0 <= t < encoded.shape[2],
    ensures
        frame_column(encoded, t).shape == seq![1usize, encoded.shape[1], 1usize],
        frame_column(encoded, t).data.len() == encoded.shape[1],
        frame_column(encoded, t).data[k] == encoded.data[k * encoded.shape[2] + t],
{
}

/// A change of frame `t` of the encoding shows in frame `t` and in no other: of
/// two encodings of one shape, the frames are the same if and only if the values
/// at their places are.
pub proof fn frames_are_independent(a: TensorView, b: TensorView, t: int)
    requires
        a.shape == b.shape,
        0 <= t < a.shape[2],
    ensures
        frame_column(a, t) == frame_column(b, t) <==> (forall|k: int|
            0 <= k < a.shape[1] ==> a.data[#[trigger] (k * a.shape[2] + t)] == b.data[k * a.shape[2]
                + t]),
{
    let x = frame_column(a, t);
    let y = frame_column(b, t);
    if forall|k: int|
        0 <= k < a.shape[1] ==> a.data[#[trigger] (k * a.shape[2] + t)] == b.data[k * a.shape[2]
            + t] {
        assert forall|k: int| 0 <= k < x.data.len() implies #[trigger] x.data[k] == y.data[k] by {
            assert(a.data[k * a.shape[2] + t] == b.data[k * a.shape[2] + t]);
        }
        assert(x.data =~= y.data);
    }
    if x == y {
        assert forall|k: int| 0 <= k < a.shape[1] implies a.data[#[trigger] (k * a.shape[2] + t)]
            == b.data[k * a.shape[2] + t] by {
            assert(x.data[k] == y.data[k]);
        }
    }
}

/// The decoder's output goes to the joiner element by element, as one batch and
/// one frame.
pub proof fn column_keeps_elements(data: Seq<u32>)
    requires
        data.len() <= usize::MAX,
    ensures
        as_column(data).data == data,
        as_column(data).shape.len() == 3,
        as_column(data).shape[0] == 1 && as_column(data).shape[2] == 1,
        as_column(data).shape[1] == data.len(),
{
}

/// As many frames are decoded as the encoder's first length says, but no more
/// than there are; all of them where it is negative, none where there is none.
pub proof fn length_bounds_frames(lengths: Seq<i32>, limit: usize)
    ensures
        lengths.len() == 0 ==> valid_frames(lengths, limit) == 0,
        lengths.len() > 0 && lengths[0] < 0 ==> valid_frames(lengths, limit) == limit,
        lengths.len() > 0 && lengths[0] >= 0 ==> {
            &&& valid_frames(lengths, limit) <= limit
            &&& valid_frames(lengths, limit) <= lengths[0]
            &&& valid_frames(lengths, limit) == limit || valid_frames(lengths, limit) == lengths[0]
        },
{
}

/// The decoder reads the token that was emitted last, and the blank before any.
pub proof fn decoder_reads_last_token(tokens: Seq<usize>, token: usize, blank: usize)
    ensures
        decoder_input(tokens.push(token), blank) == token as i64,
        decoder_input(Seq::empty(), blank) == blank as i64,
        0 <= token <= i64::MAX ==> decoder_input(tokens.push(token), blank) == token as int,
{
}

/// A decoding begins at the first frame, without tokens, in a state of 320
/// zeros.
pub proof fn decoding_starts_at_zero(
    encoded: TensorView,
    lengths: Seq<i32>,
    blank: usize,
    i: int,
)
    requires
        0 <= i < 320,
    ensures
        ({
            let s = started(encoded, lengths, blank);
            &&& s.t == 0 && s.emitted == 0 && s.tokens.len() == 0 && s.dec is None
            &&& s.encoded == encoded && s.blank == blank
            &&& s.frames == valid_frames(lengths, encoded.shape[2])
            &&& s.h.shape == seq![1usize, 1usize, 320usize] && s.h.data.len() == 320
            &&& s.c.shape == seq![1usize, 1usize, 320usize] && s.c.data.len() == 320
            &&& s.h.data[i] == 0 && s.c.data[i] == 0
        }),
{
}

/// What runs next: nothing once every frame is consumed; the decoder, on the
/// last token and the state, where its output is not at hand; else the joiner,
/// on the frame at hand and that output.
pub proof fn next_run_is_on_the_frame_at_hand(s: TransducerView)
    ensures
        s.t >= s.frames <==> s.next() == Ok::<StepView, GigaamErrorView>(StepView::Done),
        s.t < s.frames && s.dec is None ==> s.next() == Ok::<StepView, GigaamErrorView>(
            StepView::Decode { x: decoder_input(s.tokens, s.blank), h: s.h, c: s.c },
        ),
        s.t < s.frames && s.dec is Some && is_frame_matrix(s.encoded.shape) ==> s.next() == Ok::<
            StepView,
            GigaamErrorView,
        >(
            StepView::Join {
                enc: frame_column(s.encoded, s.t as int),
                dec: as_column(s.dec->0.data),
            },
        ),
        s.t < s.frames && s.dec is Some && !is_frame_matrix(s.encoded.shape) ==> s.next() == Err::<
            StepView,
            GigaamErrorView,
        >(GigaamErrorView::Shape),
{
}

/// A frame has one value for each feature if and only if every dimension behind
/// the frames is one, or there are no features.
pub proof fn frames_have_one_value_each(shape: Seq<usize>, i: int)
    requires
        3 <= i < shape.len(),
        shape[1] != 0,
    ensures
        shape[i] != 1 ==> !is_frame_matrix(shape),
        is_frame_matrix(shape.remove(i)) && shape[i] == 1 ==> is_frame_matrix(shape),
        is_frame_matrix(shape.take(3)),
{
    if is_frame_matrix(shape.remove(i)) && shape[i] == 1 {
        let fewer = shape.remove(i);
        assert forall|j: int| 3 <= j < shape.len() implies #[trigger] shape[j] == 1 by {
            if j < i {
                assert(fewer[j] == 1);
            } else if j > i {
                assert(fewer[j - 1] == 1);
            }
        }
    }
}

/// A frame is left by the blank or by its third token, and by nothing else; the
/// next one begins without tokens. What was emitted stays, and neither the
/// encoding nor the number of frames changes.
pub proof fn frames_are_left_one_by_one(s: TransducerView, token: usize)
    requires
        s.emitted < 3,
    ensures
        ({
            let next = s.after_join(token);
            &&& next.t == s.t + 1 <==> token == s.blank || s.emitted == 2
            &&& next.t == s.t || next.t == s.t + 1
            &&& next.t == s.t + 1 ==> next.emitted == 0
            &&& next.t == s.t ==> next.emitted == s.emitted + 1
            &&& next.tokens.len() == s.tokens.len() + (if token == s.blank {
                0int
            } else {
                1
            })
            &&& next.encoded == s.encoded && next.frames == s.frames && next.blank == s.blank
        }),
{
}

/// A run of the decoder gives the joiner its output, keeps the new state for
/// the next token, and changes nothing else.
pub proof fn decoding_keeps_the_rest(
    s: TransducerView,
    dec: TensorView,
    h: TensorView,
    c: TensorView,
)
    ensures
        ({
            let next = s.after_decode(dec, h, c);
            &&& next.dec == Some(dec) && next.pending_h == h && next.pending_c == c
            &&& next.h == s.h && next.c == s.c
            &&& next.tokens == s.tokens && next.t == s.t && next.emitted == s.emitted
            &&& next.encoded == s.encoded && next.frames == s.frames && next.blank == s.blank
        }),
{
}

/// The decoder's state behind these tokens: zeros at first, and after each token
/// the state of the run that led to it.
pub open spec fn state_behind(tokens: Seq<usize>, blank: usize, decode: DecoderFn) -> (
    TensorView,
    TensorView,
)
    decreases tokens.len(),
{
    if tokens.len() == 0 {
        let zeros = TensorView {
            shape: seq![1usize, 1usize, 320usize],
            data: Seq::new(320, |i: int| 0u32),
        };
        (zeros, zeros)
    } else {
        let before = tokens.drop_last();
        let state = state_behind(before, blank, decode);
        match decode(decoder_input(before, blank), state.0, state.1) {
            Ok(out) => (out.1, out.2),
            Err(_) => state,
        }
    }
}

/// The best token of frame `t` behind these tokens, if the networks answer.
pub open spec fn best_token(
    encoded: TensorView,
    t: int,
    tokens: Seq<usize>,
    blank: usize,
    decode: DecoderFn,
    join: JoinerFn,
) -> Option<usize> {
    let state = state_behind(tokens, blank, decode);
    match decode(decoder_input(tokens, blank), state.0, state.1) {
        Ok(out) => match join(frame_column(encoded, t), as_column(out.0.data)) {
            Ok(scores) => Some(argmax_of(scores) as usize),
            Err(_) => None,
        },
        Err(_) => None,
    }
}

/// Frame `t` emits tokens `from` to `to` of `tokens`: at most three, each the
/// best one behind those before it and no blank; where it emits fewer than
/// three, the best one behind them is the blank.
pub open spec fn emits(
    encoded: TensorView,
    t: int,
    tokens: Seq<usize>,
    from: int,
    to: int,
    blank: usize,
    decode: DecoderFn,
    join: JoinerFn,
) -> bool {
    &&& 0 <= from <= to <= tokens.len()
    &&& to <= from + 3
    &&& forall|k: int|
        from <= k < to ==> #[trigger] tokens[k] != blank && best_token(
            encoded,
            t,
            tokens.take(k),
            blank,
            decode,
            join,
        ) == Some(tokens[k])
    &&& to < from + 3 ==> best_token(encoded, t, tokens.take(to), blank, decode, join) == Some(
        blank,
    )
}

/// `ends[t]` is how many of `tokens` the frames up to `t` emit.
pub open spec fn is_alignment(
    encoded: TensorView,
    tokens: Seq<usize>,
    ends: Seq<int>,
    blank: usize,
    decode: DecoderFn,
    join: JoinerFn,
) -> bool {
    forall|t: int|
        0 <= t < ends.len() ==> emits(
            encoded,
            t,
            tokens,
            if t == 0 {
                0
            } else {
                ends[t - 1]
            },
            #[trigger] ends[t],
            blank,
            decode,
            join,
        )
}

proof fn lemma_emits_grows(
    encoded: TensorView,
    t: int,
    tokens: Seq<usize>,
    from: int,
    to: int,
    blank: usize,
    decode: DecoderFn,
    join: JoinerFn,
    token: usize,
)
    requires
        emits(encoded, t, tokens, from, to, blank, decode, join),
    ensures
        emits(encoded, t, tokens.push(token), from, to, blank, decode, join),
{
    let more = tokens.push(token);
    assert forall|k: int| from <= k < to implies #[trigger] more[k] != blank && best_token(
        encoded,
        t,
        more.take(k),
        blank,
        decode,
        join,
    ) == Some(more[k]) by {
        assert(more.take(k) =~= tokens.take(k));
        assert(tokens[k] != blank);
    }
    assert(more.take(to) =~= tokens.take(to));
}

proof fn lemma_alignment_grows(
    encoded: TensorView,
    tokens: Seq<usize>,
    ends: Seq<int>,
    blank: usize,
    decode: DecoderFn,
    join: JoinerFn,
    token: usize,
)
    requires
        is_alignment(encoded, tokens, ends, blank, decode, join),
    ensures
        is_alignment(encoded, tokens.push(token), ends, blank, decode, join),
{
    assert forall|t: int| 0 <= t < ends.len() implies emits(
        encoded,
        t,
        tokens.push(token),
        if t == 0 {
            0
        } else {
            ends[t - 1]
        },
        #[trigger] ends[t],
        blank,
        decode,
        join,
    ) by {
        lemma_emits_grows(
            encoded,
            t,
            tokens,
            if t == 0 {
                0
            } else {
                ends[t - 1]
            },
            ends[t],
            blank,
            decode,
            join,
            token,
        );
    }
}

proof fn lemma_alignment_ends_frame(
    encoded: TensorView,
    tokens: Seq<usize>,
    ends: Seq<int>,
    blank: usize,
    decode: DecoderFn,
    join: JoinerFn,
)
    requires
        is_alignment(encoded, tokens, ends, blank, decode, join),
        emits(
            encoded,
            ends.len() as int,
            tokens,
            if ends.len() == 0 {
                0
            } else {
                ends.last()
            },
            tokens.len() as int,
            blank,
            decode,
            join,
        ),
    ensures
        is_alignment(encoded, tokens, ends.push(tokens.len() as int), blank, decode, join),
{
    let more = ends.push(tokens.len() as int);
    assert forall|t: int| 0 <= t < more.len() implies emits(
        encoded,
        t,
        tokens,
        if t == 0 {
            0
        } else {
            more[t - 1]
        },
        #[trigger] more[t],
        blank,
        decode,
        join,
    ) by {
        if t < ends.len() {
            assert(ends[t] == more[t]);
        }
    }
}

#[verifier::rlimit(60)]
#[verifier::spinoff_prover]
proof fn lemma_greedy_is_aligned(
    encoded: TensorView,
    frames: nat,
    blank: usize,
    t: nat,
    emitted: nat,
    h: TensorView,
    c: TensorView,
    tokens: Seq<usize>,
    decode: DecoderFn,
    join: JoinerFn,
    ends: Seq<int>,
) -> (all: Seq<int>)
    requires
        t <= frames,
        t == frames ==> emitted == 0,
        emitted < 3,
        ends.len() == t,
        tokens.len() == (if t == 0 {
            0
        } else {
            ends.last()
        }) + emitted,
        (h, c) == state_behind(tokens, blank, decode),
        is_alignment(encoded, tokens, ends, blank, decode, join),
        forall|k: int|
            tokens.len() - emitted <= k < tokens.len() ==> #[trigger] tokens[k] != blank
                && best_token(encoded, t as int, tokens.take(k), blank, decode, join) == Some(
                tokens[k],
            ),
        greedy(encoded, frames, blank, t, emitted, h, c, tokens, decode, join) is Ok,
    ensures
        ({
            let r = greedy(encoded, frames, blank, t, emitted, h, c, tokens, decode, join)->Ok_0;
            &&& all.len() == frames
            &&& is_alignment(encoded, r, all, blank, decode, join)
            &&& r.len() == (if frames == 0 {
                0
            } else {
                all.last()
            })
        }),
    decreases frames - t, 3 - emitted,
{
    if t >= frames {
        ends
    } else {
        let out = decode(decoder_input(tokens, blank), h, c)->Ok_0;
        let scores = join(frame_column(encoded, t as int), as_column(out.0.data))->Ok_0;
        let token = argmax_of(scores) as usize;
        assert(best_token(encoded, t as int, tokens, blank, decode, join) == Some(token));
        assert(tokens.take(tokens.len() as int) =~= tokens);
        if token == blank {
            lemma_alignment_ends_frame(encoded, tokens, ends, blank, decode, join);
            lemma_greedy_is_aligned(
                encoded,
                frames,
                blank,
                t + 1,
                0,
                h,
                c,
                tokens,
                decode,
                join,
                ends.push(tokens.len() as int),
            )
        } else {
            let more = tokens.push(token);
            assert(more.drop_last() =~= tokens);
            lemma_alignment_grows(encoded, tokens, ends, blank, decode, join, token);
            assert forall|k: int| more.len() - (emitted + 1) <= k < more.len() implies #[trigger]
                more[k] != blank && best_token(
                encoded,
                t as int,
                more.take(k),
                blank,
                decode,
                join,
            ) == Some(more[k]) by {
                assert(more.take(k) =~= tokens.take(k));
                if k < tokens.len() {
                    assert(tokens[k] != blank);
                }
            }
            if emitted + 1 == 3 {
                lemma_alignment_ends_frame(encoded, more, ends, blank, decode, join);
                lemma_greedy_is_aligned(
                    encoded,
                    frames,
                    blank,
                    t + 1,
                    0,
                    out.1,
                    out.2,
                    more,
                    decode,
                    join,
                    ends.push(more.len() as int),
                )
            } else {
                lemma_greedy_is_aligned(
                    encoded,
                    frames,
                    blank,
                    t,
                    emitted + 1,
                    out.1,
                    out.2,
                    more,
                    decode,
                    join,
                    ends,
                )
            }
        }
    }
}

/// Every frame is heard: the tokens of a decoding fall to its frames in order,
/// all of them to some frame. A frame emits the best token behind what was
/// emitted before, again and again, until that is the blank or it has emitted
/// three.
pub proof fn every_frame_is_heard(
    encoded: TensorView,
    lengths: Seq<i32>,
    blank: usize,
    decode: DecoderFn,
    join: JoinerFn,
) -> (ends: Seq<int>)
    requires
        greedy_tokens(encoded, lengths, blank, decode, join) is Ok,
    ensures
        ({
            let tokens = greedy_tokens(encoded, lengths, blank, decode, join)->Ok_0;
            &&& ends.len() == valid_frames(lengths, encoded.shape[2])
            &&& is_alignment(encoded, tokens, ends, blank, decode, join)
            &&& tokens.len() == (if ends.len() == 0 {
                0
            } else {
                ends.last()
            })
        }),
{
    let zeros = zeros_of(seq![1usize, 1usize, PRED_HIDDEN], PRED_HIDDEN as nat);
    assert(zeros.data =~= Seq::new(320, |i: int| 0u32));
    lemma_greedy_is_aligned(
        encoded,
        valid_frames(lengths, encoded.shape[2]),
        blank,
        0,
        0,
        zeros,
        zeros,
        Seq::empty(),
        decode,
        join,
        Seq::empty(),
    )
}

proof fn lemma_greedy_succeeds(
    encoded: TensorView,
    frames: nat,
    blank: usize,
    t: nat,
    emitted: nat,
    h: TensorView,
    c: TensorView,
    tokens: Seq<usize>,
    decode: DecoderFn,
    join: JoinerFn,
)
    requires
        is_frame_matrix(encoded.shape),
        forall|x: i64, h: TensorView, c: TensorView| (#[trigger] decode(x, h, c)) is Ok,
        forall|enc: TensorView, dec: TensorView| (#[trigger] join(enc, dec)) is Ok,
    ensures
        greedy(encoded, frames, blank, t, emitted, h, c, tokens, decode, join) is Ok,
    decreases frames - t, 3 - emitted,
{
    if t < frames && emitted < 3 {
        let out = decode(decoder_input(tokens, blank), h, c)->Ok_0;
        let scores = join(frame_column(encoded, t as int), as_column(out.0.data))->Ok_0;
        let token = argmax_of(scores) as usize;
        let more = tokens.push(token);
        lemma_greedy_succeeds(encoded, frames, blank, t + 1, 0, h, c, tokens, decode, join);
        lemma_greedy_succeeds(encoded, frames, blank, t + 1, 0, out.1, out.2, more, decode, join);
        lemma_greedy_succeeds(
            encoded,
            frames,
            blank,
            t,
            emitted + 1,
            out.1,
            out.2,
            more,
            decode,
            join,
        );
    }
}

/// A decoding fails only where a network does, or where a frame has more or
/// fewer values than features; without frames it does not fail.
pub proof fn decoding_succeeds_where_networks_answer(
    encoded: TensorView,
    lengths: Seq<i32>,
    blank: usize,
    decode: DecoderFn,
    join: JoinerFn,
)
    ensures
        valid_frames(lengths, encoded.shape[2]) == 0 ==> greedy_tokens(
            encoded,
            lengths,
            blank,
            decode,
            join,
        ) == Ok::<Seq<usize>, GigaamErrorView>(Seq::empty()),
        is_frame_matrix(encoded.shape) && (forall|x: i64, h: TensorView, c: TensorView|
            (#[trigger] decode(x, h, c)) is Ok) && (forall|enc: TensorView, dec: TensorView|
            (#[trigger] join(enc, dec)) is Ok) ==> greedy_tokens(
            encoded,
            lengths,
            blank,
            decode,
            join,
        ) is Ok,
{
    let zeros = zeros_of(seq![1usize, 1usize, PRED_HIDDEN], PRED_HIDDEN as nat);
    if is_frame_matrix(encoded.shape) && (forall|x: i64, h: TensorView, c: TensorView|
        (#[trigger] decode(x, h, c)) is Ok) && (forall|enc: TensorView, dec: TensorView|
        (#[trigger] join(enc, dec)) is Ok) {
        lemma_greedy_succeeds(
            encoded,
            valid_frames(lengths, encoded.shape[2]),
            blank,
            0,
            0,
            zeros,
            zeros,
            Seq::empty(),
            decode,
            join,
        );
    }
}

proof fn lemma_greedy_fails_with(
    encoded: TensorView,
    frames: nat,
    blank: usize,
    t: nat,
    emitted: nat,
    h: TensorView,
    c: TensorView,
    tokens: Seq<usize>,
    decode: DecoderFn,
    join: JoinerFn,
)
    ensures
        greedy(encoded, frames, blank, t, emitted, h, c, tokens, decode, join) matches Err(e)
            ==> fails_with(encoded, decode, join, e),
    decreases frames - t, 3 - emitted,
{
    if t < frames && emitted < 3 {
        if let Ok(out) = decode(decoder_input(tokens, blank), h, c) {
            if let Ok(scores) = join(frame_column(encoded, t as int), as_column(out.0.data)) {
                let token = argmax_of(scores) as usize;
                let more = tokens.push(token);
                lemma_greedy_fails_with(
                    encoded,
                    frames,
                    blank,
                    t + 1,
                    0,
                    h,
                    c,
                    tokens,
                    decode,
                    join,
                );
                lemma_greedy_fails_with(
                    encoded,
                    frames,
                    blank,
                    t + 1,
                    0,
                    out.1,
                    out.2,
                    more,
                    decode,
                    join,
                );
                lemma_greedy_fails_with(
                    encoded,
                    frames,
                    blank,
                    t,
                    emitted + 1,
                    out.1,
                    out.2,
                    more,
                    decode,
                    join,
                );
            }
        }
    }
}

/// `e` is a failure of one of the networks, or that of frames without one value
/// for each feature.
pub open spec fn fails_with(
    encoded: TensorView,
    decode: DecoderFn,
    join: JoinerFn,
    e: GigaamErrorView,
) -> bool {
    ||| exists|x: i64, h: TensorView, c: TensorView| #[trigger]
        decode(x, h, c) == Err::<(TensorView, TensorView, TensorView), GigaamErrorView>(e)
    ||| exists|enc: TensorView, dec: TensorView| #[trigger]
        join(enc, dec) == Err::<Seq<u32>, GigaamErrorView>(e)
    ||| e == GigaamErrorView::Shape && !is_frame_matrix(encoded.shape)
}

/// A decoding that fails hands on the failure of a network, or says that the
/// frames do not have one value for each feature.
pub proof fn failures_are_handed_on(
    encoded: TensorView,
    lengths: Seq<i32>,
    blank: usize,
    decode: DecoderFn,
    join: JoinerFn,
)
    ensures
        greedy_tokens(encoded, lengths, blank, decode, join) matches Err(e) ==> fails_with(
            encoded,
            decode,
            join,
            e,
        ),
{
    let zeros = zeros_of(seq![1usize, 1usize, PRED_HIDDEN], PRED_HIDDEN as nat);
    lemma_greedy_fails_with(
        encoded,
        valid_frames(lengths, encoded.shape[2]),
        blank,
        0,
        0,
        zeros,
        zeros,
        Seq::empty(),
        decode,
        join,
    );
}

/// What the networks give is taken as it is, element by element. Of several
/// outputs that are not there, the first counts: the encoding before the
/// lengths, and the decoder's output before its state.
pub proof fn network_outputs_are_taken_as_given(
    dec: Tensor,
    h: Tensor,
    c: Tensor,
    lengths: Vec<i32>,
    any: Output<Tensor>,
    any_lengths: Output<Vec<i32>>,
    e: GigaamError,
)
    ensures
        decode_view(
            Ok(
                DecoderOutputs {
                    dec: Output::Ready(dec),
                    h: Output::Ready(h),
                    c: Output::Ready(c),
                },
            ),
        ) == Ok::<(TensorView, TensorView, TensorView), GigaamErrorView>((dec@, h@, c@)),
        decode_view(Ok(DecoderOutputs { dec: Output::Missing, h: any, c: any })) == Err::<
            (TensorView, TensorView, TensorView),
            GigaamErrorView,
        >(GigaamErrorView::OutputNotFound("dec"@)),
        decode_view(
            Ok(DecoderOutputs { dec: Output::Ready(dec), h: Output::Missing, c: any }),
        ) == Err::<(TensorView, TensorView, TensorView), GigaamErrorView>(
            GigaamErrorView::OutputNotFound("h"@),
        ),
        decode_view(
            Ok(
                DecoderOutputs {
                    dec: Output::Ready(dec),
                    h: Output::Ready(h),
                    c: Output::Missing,
                },
            ),
        ) == Err::<(TensorView, TensorView, TensorView), GigaamErrorView>(
            GigaamErrorView::OutputNotFound("c"@),
        ),
        decode_view(Err(e)) == Err::<(TensorView, TensorView, TensorView), GigaamErrorView>(e@),
        join_view(Ok(Output::Ready(dec))) == Ok::<Seq<u32>, GigaamErrorView>(dec.data@),
        join_view(Ok(Output::Missing)) == Err::<Seq<u32>, GigaamErrorView>(
            GigaamErrorView::OutputNotFound("joint"@),
        ),
        join_view(Err(e)) == Err::<Seq<u32>, GigaamErrorView>(e@),
        encoder_error(Output::Missing, any_lengths) == Some(
            GigaamErrorView::OutputNotFound("encoded"@),
        ),
        encoder_error(Output::Ready(dec), Output::Missing) == Some(
            GigaamErrorView::OutputNotFound("encoded_len"@),
        ),
        encoder_error(Output::Ready(dec), Output::Ready(lengths)) is None,
{
}

/// Tokens and failures stand for themselves.
pub proof fn tokens_stand_for_themselves(tokens: Vec<usize>, e: GigaamError)
    ensures
        tokens_view(Ok(tokens)) == Ok::<Seq<usize>, GigaamErrorView>(tokens@),
        tokens_view(Err(e)) == Err::<Seq<usize>, GigaamErrorView>(e@),
{
}

} // verus!
