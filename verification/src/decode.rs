//! From the network's scores to text: greedy CTC, and tokens to words.
use vstd::prelude::*;
use vstd::slice::slice_subrange;
use vstd::string::*;

use crate::error::{GigaamError, GigaamErrorView};
use crate::tensor::{
    argmax, argmax_of, greater, greatest_score_is_chosen, output_error, take_output, Output, Tensor,
};
use crate::text::{trim, trimmed};
use crate::vocab::texts;

verus! {

/// The texts of the tokens one after the other. A token that the vocabulary
/// lacks adds nothing.
pub open spec fn token_texts(tokens: Seq<usize>, vocab: Seq<Seq<char>>) -> Seq<char>
    decreases tokens.len(),
{
    if tokens.len() == 0 {
        Seq::empty()
    } else if tokens.last() < vocab.len() {
        token_texts(tokens.drop_last(), vocab) + vocab[tokens.last() as int]
    } else {
        token_texts(tokens.drop_last(), vocab)
    }
}

/// The scores of frame `t`, of `vocab_size` each.
pub open spec fn score_row(log_probs: Seq<u32>, vocab_size: usize, t: int) -> Seq<u32> {
    log_probs.subrange(t * vocab_size, (t + 1) * vocab_size)
}

/// The best label of each frame.
pub open spec fn frame_labels(log_probs: Seq<u32>, t_out: usize, vocab_size: usize) -> Seq<usize> {
    Seq::new(t_out as nat, |t: int| argmax_of(score_row(log_probs, vocab_size, t)) as usize)
}

/// The labels without blanks, and with a label that repeats the one before it
/// left out.
pub open spec fn ctc_collapse(labels: Seq<usize>, blank: usize) -> Seq<usize>
    decreases labels.len(),
{
    if labels.len() == 0 {
        Seq::empty()
    } else {
        let rest = ctc_collapse(labels.drop_last(), blank);
        let repeats = labels.len() > 1 && labels[labels.len() - 2] == labels.last();
        if labels.last() == blank || repeats {
            rest
        } else {
            rest.push(labels.last())
        }
    }
}

/// No blank survives.
pub proof fn collapse_drops_blanks(labels: Seq<usize>, blank: usize)
    ensures
        !ctc_collapse(labels, blank).contains(blank),
    decreases labels.len(),
{
    if labels.len() > 0 {
        collapse_drops_blanks(labels.drop_last(), blank);
        let rest = ctc_collapse(labels.drop_last(), blank);
        let all = ctc_collapse(labels, blank);
        assert forall|i: int| 0 <= i < all.len() implies #[trigger] all[i] != blank by {
            if i < rest.len() {
                assert(rest.contains(rest[i]));
            }
        }
    }
}

/// A frame that is held longer, wherever it stands, changes nothing; nor does a
/// blank behind the last frame.
pub proof fn collapse_ignores_repeats(labels: Seq<usize>, k: int, blank: usize)
    ensures
        0 <= k < labels.len() ==> ctc_collapse(labels.insert(k + 1, labels[k]), blank)
            == ctc_collapse(labels, blank),
        ctc_collapse(labels.push(blank), blank) == ctc_collapse(labels, blank),
    decreases labels.len(),
{
    assert(labels.push(blank).drop_last() =~= labels);
    if 0 <= k < labels.len() {
        let longer = labels.insert(k + 1, labels[k]);
        if k == labels.len() - 1 {
            assert(longer.drop_last() =~= labels);
        } else {
            let shorter = labels.drop_last();
            collapse_ignores_repeats(shorter, k, blank);
            assert(longer.drop_last() =~= shorter.insert(k + 1, shorter[k]));
            assert(longer.last() == labels.last());
            assert(longer[longer.len() - 2] == labels[labels.len() - 2]);
        }
    }
}

/// A blank parts the labels before it from those behind it: each side is
/// collapsed on its own, so that equal labels on both sides of it are kept.
pub proof fn blank_parts_repeats(before: Seq<usize>, after: Seq<usize>, blank: usize)
    ensures
        ctc_collapse(before.push(blank) + after, blank) == ctc_collapse(before, blank)
            + ctc_collapse(after, blank),
    decreases after.len(),
{
    let all = before.push(blank) + after;
    if after.len() == 0 {
        assert(all.drop_last() =~= before);
        assert(ctc_collapse(all, blank) =~= ctc_collapse(before, blank) + ctc_collapse(
            after,
            blank,
        ));
    } else {
        let shorter = after.drop_last();
        blank_parts_repeats(before, shorter, blank);
        assert(all.drop_last() =~= before.push(blank) + shorter);
        assert(all.last() == after.last());
        if after.len() > 1 {
            assert(all[all.len() - 2] == after[after.len() - 2]);
        } else {
            assert(all[all.len() - 2] == blank);
        }
        assert(ctc_collapse(all, blank) =~= ctc_collapse(before, blank) + ctc_collapse(
            after,
            blank,
        ));
    }
}

fn append_token(text: &mut String, token: usize, vocab: &[String])
    ensures
        final(text)@ == old(text)@ + (if token < vocab.len() {
            texts(vocab@)[token as int]
        } else {
            Seq::empty()
        }),
{
    if token < vocab.len() {
        text.append(vocab[token].as_str());
    } else {
        assert(text@ + Seq::<char>::empty() =~= text@);
    }
}

/// The text of a sequence of tokens.
pub fn tokens_to_text(tokens: &[usize], vocab: &[String]) -> (r: String)
    ensures
        r@ == trimmed(token_texts(tokens@, texts(vocab@))),
{
    let mut text = String::new();
    let mut i: usize = 0;
    while i < tokens.len()
        invariant
            i <= tokens.len(),
            text@ == token_texts(tokens@.take(i as int), texts(vocab@)),
        decreases tokens.len() - i,
    {
        proof {
            assert(tokens@.take(i + 1).drop_last() =~= tokens@.take(i as int));
            assert(text@ + Seq::<char>::empty() =~= text@);
        }
        append_token(&mut text, tokens[i], vocab);
        i = i + 1;
    }
    assert(tokens@.take(i as int) =~= tokens@);
    trim(text.as_str())
}

/// The CTC encoder's scores with the number of frames and of labels.
pub fn run_ctc(log_probs: Output<Tensor>) -> (r: Result<(Vec<u32>, usize, usize), GigaamError>)
    requires
        log_probs matches Output::Ready(p) ==> p@.shape.len() >= 3,
    ensures
        match r {
            Ok(v) => {
                &&& log_probs matches Output::Ready(p)
                &&& v.0@ == p@.data
                &&& v.1 == p@.shape[1]
                &&& v.2 == p@.shape[2]
            },
            Err(e) => output_error(log_probs, "log_probs"@) == Some(e@),
        },
{
    match take_output(log_probs, "log_probs") {
        Ok(p) => {
            let t_out: usize = p.shape[1];
            let vocab_size: usize = p.shape[2];
            Ok((p.data, t_out, vocab_size))
        },
        Err(e) => Err(e),
    }
}

/// Greedy CTC: the best label of each frame, repeats and blanks left out, as
/// text.
pub fn ctc_greedy_decode(
    log_probs: &[u32],
    t_out: usize,
    vocab_size: usize,
    vocab: &[String],
    blank_idx: usize,
) -> (r: String)
    requires
        t_out * vocab_size <= log_probs@.len(),
    ensures
        r@ == trimmed(
            token_texts(
                ctc_collapse(frame_labels(log_probs@, t_out, vocab_size), blank_idx),
                texts(vocab@),
            ),
        ),
{
    let ghost labels = frame_labels(log_probs@, t_out, vocab_size);
    let mut text = String::new();
    let mut prev: Option<usize> = None;
    let mut t: usize = 0;
    while t < t_out
        invariant
            t <= t_out,
            t_out * vocab_size <= log_probs@.len(),
            labels == frame_labels(log_probs@, t_out, vocab_size),
            text@ == token_texts(ctc_collapse(labels.take(t as int), blank_idx), texts(vocab@)),
            match prev {
                Some(p) => t > 0 && p == labels[t - 1],
                None => t == 0,
            },
        decreases t_out - t,
    {
        proof {
            assert(0 <= t * vocab_size <= (t + 1) * vocab_size <= t_out * vocab_size)
                by (nonlinear_arith)
                requires
                    0 <= t < t_out,
                    0 <= vocab_size,
            ;
            assert(log_probs.len() == log_probs@.len());
            assert((t + 1) * vocab_size == t * vocab_size + vocab_size) by (nonlinear_arith);
        }
        let from: usize = t * vocab_size;
        let row = slice_subrange(log_probs, from, from + vocab_size);
        let best: usize = argmax(row);
        let ghost now = labels.take(t + 1);
        proof {
            assert(row@ == score_row(log_probs@, vocab_size, t as int));
            assert(now.drop_last() =~= labels.take(t as int));
            assert(now.last() == best);
        }
        let repeats = match prev {
            Some(p) => p == best,
            None => false,
        };
        if !repeats && best != blank_idx {
            proof {
                let rest = ctc_collapse(labels.take(t as int), blank_idx);
                assert(ctc_collapse(now, blank_idx) == rest.push(best));
                assert(rest.push(best).drop_last() =~= rest);
                assert(text@ + Seq::<char>::empty() =~= text@);
            }
            append_token(&mut text, best, vocab);
        }
        prev = Some(best);
        t = t + 1;
    }
    assert(labels.take(t as int) =~= labels);
    trim(text.as_str())
}

/// Texts are put together unaltered: the text of two runs of tokens is that of
/// the first followed by that of the second, and the text of one token is the
/// vocabulary's, white space included.
pub proof fn texts_are_joined_unaltered(
    a: Seq<usize>,
    b: Seq<usize>,
    t: usize,
    vocab: Seq<Seq<char>>,
)
    ensures
        token_texts(a + b, vocab) == token_texts(a, vocab) + token_texts(b, vocab),
        t < vocab.len() ==> token_texts(seq![t], vocab) == vocab[t as int],
        t >= vocab.len() ==> token_texts(seq![t], vocab) == Seq::<char>::empty(),
        token_texts(Seq::<usize>::empty(), vocab) == Seq::<char>::empty(),
    decreases b.len(),
{
    reveal_with_fuel(token_texts, 2);
    assert(seq![t].drop_last() =~= Seq::<usize>::empty());
    if t < vocab.len() {
        assert(token_texts(seq![t], vocab) =~= vocab[t as int]);
    }
    if b.len() == 0 {
        assert(a + b =~= a);
        assert(token_texts(a + b, vocab) =~= token_texts(a, vocab) + token_texts(b, vocab));
    } else {
        texts_are_joined_unaltered(a, b.drop_last(), t, vocab);
        assert((a + b).drop_last() =~= a + b.drop_last());
        assert((a + b).last() == b.last());
        assert(token_texts(a + b, vocab) =~= token_texts(a, vocab) + token_texts(b, vocab));
    }
}

/// The label of a frame is the place of the greatest of the frame's own scores,
/// which stand one frame after the other; of equal ones it is the first.
pub proof fn label_is_best_of_its_frame(
    log_probs: Seq<u32>,
    t_out: usize,
    vocab_size: usize,
    t: int,
    j: int,
)
    requires
        0 <= t < t_out,
        0 <= j < vocab_size,
        t_out * vocab_size <= log_probs.len(),
    ensures
        frame_labels(log_probs, t_out, vocab_size).len() == t_out,
        ({
            let at = t * vocab_size;
            let label = frame_labels(log_probs, t_out, vocab_size)[t];
            &&& label < vocab_size
            &&& greater(log_probs[at + j], 0xff80_0000) ==> {
                &&& !greater(log_probs[at + j], log_probs[at + label])
                &&& j < label ==> greater(log_probs[at + label], log_probs[at + j])
            }
            &&& (forall|i: int|
                0 <= i < vocab_size ==> !greater(#[trigger] log_probs[at + i], 0xff80_0000))
                ==> label == 0
        }),
{
    let at = t * vocab_size;
    let row = score_row(log_probs, vocab_size, t);
    assert(0 <= at && at + vocab_size <= t_out * vocab_size && (t + 1) * vocab_size == at
        + vocab_size) by (nonlinear_arith)
        requires
            at == t * vocab_size,
            0 <= t < t_out,
            0 <= vocab_size,
    ;
    assert(row.len() == vocab_size);
    assert forall|i: int| 0 <= i < vocab_size implies #[trigger] row[i] == log_probs[at + i] by {}
    greatest_score_is_chosen(row, j);
    if forall|i: int| 0 <= i < vocab_size ==> !greater(#[trigger] log_probs[at + i], 0xff80_0000) {
        assert forall|i: int| 0 <= i < row.len() implies !greater(
            #[trigger] row[i],
            0xff80_0000,
        ) by {
            assert(!greater(log_probs[at + i], 0xff80_0000));
        }
    }
}

/// Labels that are no blanks and differ from their neighbours are all kept, in
/// order.
pub proof fn distinct_labels_are_kept(labels: Seq<usize>, blank: usize)
    requires
        !labels.contains(blank),
        forall|i: int| 0 < i < labels.len() ==> labels[i - 1] != #[trigger] labels[i],
    ensures
        ctc_collapse(labels, blank) == labels,
    decreases labels.len(),
{
    if labels.len() > 0 {
        let shorter = labels.drop_last();
        assert forall|i: int| 0 <= i < shorter.len() implies #[trigger] shorter[i] != blank by {
            assert(labels.contains(labels[i]));
        }
        assert forall|i: int| 0 < i < shorter.len() implies shorter[i - 1]
            != #[trigger] shorter[i] by {
            assert(labels[i - 1] != labels[i]);
        }
        distinct_labels_are_kept(shorter, blank);
        assert(labels.contains(labels[labels.len() - 1]));
        if labels.len() > 1 {
            assert(labels[labels.len() - 1 - 1] != labels[labels.len() - 1]);
        }
        assert(ctc_collapse(labels, blank) =~= labels);
    } else {
        assert(ctc_collapse(labels, blank) =~= labels);
    }
}

} // verus!
