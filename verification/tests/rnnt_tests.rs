use std::cell::RefCell;

use gigaam::error::GigaamError;
use gigaam::rnnt::{run_rnnt, DecoderOutputs, Step, Transducer, PRED_HIDDEN};
use gigaam::tensor::{Output, Tensor};

fn tensor(shape: &[usize], data: &[u32]) -> Tensor {
    Tensor { shape: shape.to_vec(), data: data.to_vec() }
}

/// Scores over `n` tokens with `best` on top.
fn scores(best: usize, n: usize) -> Tensor {
    let data = (0..n)
        .map(|i| if i == best { 1.0f32.to_bits() } else { 0.0f32.to_bits() })
        .collect();
    Tensor { shape: vec![1, 1, 1, n], data }
}

/// Two features, three frames: columns (10, 20), (11, 21), (12, 22).
fn encoded() -> Output<Tensor> {
    Output::Ready(tensor(&[1, 2, 3], &[10, 11, 12, 20, 21, 22]))
}

fn decoder_outputs(n: u32) -> DecoderOutputs {
    DecoderOutputs {
        dec: Output::Ready(tensor(&[1, 1, 2], &[n, n + 1])),
        h: Output::Ready(tensor(&[1, 1, 1], &[100 + n])),
        c: Output::Ready(tensor(&[1, 1, 1], &[200 + n])),
    }
}

#[test]
fn decoding_asks_for_decoder_and_joiner_in_turn() {
    let mut d = Transducer::new(encoded(), Output::Ready(vec![3]), 4).unwrap();
    match d.next().unwrap() {
        Step::Decode { x, h, c } => {
            assert_eq!(x, 4);
            assert_eq!(h.shape, vec![1, 1, PRED_HIDDEN]);
            assert_eq!(h.data, vec![0; PRED_HIDDEN]);
            assert_eq!(c.data, vec![0; PRED_HIDDEN]);
        }
        other => panic!("{:?}", other),
    }
    let o = decoder_outputs(7);
    d.decoded(o.dec, o.h, o.c).unwrap();
    match d.next().unwrap() {
        Step::Join { enc, dec } => {
            assert_eq!((enc.shape, enc.data), (vec![1, 2, 1], vec![10, 20]));
            assert_eq!((dec.shape, dec.data), (vec![1, 2, 1], vec![7, 8]));
        }
        other => panic!("{:?}", other),
    }
    d.joined(Output::Ready(scores(2, 5))).unwrap();
    assert_eq!(d.tokens(), &vec![2]);
    match d.next().unwrap() {
        Step::Decode { x, h, c } => {
            assert_eq!(x, 2);
            assert_eq!((h.data, c.data), (vec![107], vec![207]));
        }
        other => panic!("{:?}", other),
    }
}

#[test]
fn a_blank_moves_on_and_keeps_the_decoder_output() {
    let mut d = Transducer::new(encoded(), Output::Ready(vec![2]), 4).unwrap();
    let o = decoder_outputs(7);
    d.decoded(o.dec, o.h, o.c).unwrap();
    d.joined(Output::Ready(scores(4, 5))).unwrap();
    assert!(d.tokens().is_empty());
    match d.next().unwrap() {
        Step::Join { enc, dec } => {
            assert_eq!(enc.data, vec![11, 21]);
            assert_eq!(dec.data, vec![7, 8]);
        }
        other => panic!("{:?}", other),
    }
    d.joined(Output::Ready(scores(4, 5))).unwrap();
    assert!(matches!(d.next().unwrap(), Step::Done));
}

#[test]
fn a_frame_emits_at_most_three_tokens() {
    let tokens = run_rnnt(
        encoded(),
        Output::Ready(vec![2]),
        4,
        |_x, _h, _c| Ok(decoder_outputs(0)),
        |_enc, _dec| Ok(Output::Ready(scores(1, 5))),
    )
    .unwrap();
    assert_eq!(tokens, vec![1; 6]);
}

#[test]
fn blanks_alone_give_no_tokens_and_one_decoder_run() {
    let runs = RefCell::new(0);
    let tokens = run_rnnt(
        encoded(),
        Output::Ready(vec![3]),
        4,
        |_x, _h, _c| {
            *runs.borrow_mut() += 1;
            Ok(decoder_outputs(0))
        },
        |_enc, _dec| Ok(Output::Ready(scores(4, 5))),
    )
    .unwrap();
    assert!(tokens.is_empty());
    assert_eq!(*runs.borrow(), 1);
}

#[test]
fn decoding_is_greedy() {
    // The decoder counts its runs in the state; the joiner answers by frame and
    // by that count.
    let decode = |_x: i64, h: Tensor, c: Tensor| {
        let n = if h.data.len() == 1 { h.data[0] } else { 0 };
        Ok(DecoderOutputs {
            dec: Output::Ready(tensor(&[1, 1, 1], &[n])),
            h: Output::Ready(tensor(&[1, 1, 1], &[n + 1])),
            c: Output::Ready(c),
        })
    };
    let join = |enc: Tensor, dec: Tensor| {
        let best = match (enc.data[0], dec.data[0]) {
            (10, 0) => 3,
            (10, 1) => 2,
            (11, 2) => 1,
            _ => 4,
        };
        Ok(Output::Ready(scores(best, 5)))
    };
    let tokens = run_rnnt(encoded(), Output::Ready(vec![3]), 4, decode, join).unwrap();
    assert_eq!(tokens, vec![3, 2, 1]);
}

fn joined_frames(lengths: Vec<i32>) -> usize {
    let joins = RefCell::new(0);
    run_rnnt(
        encoded(),
        Output::Ready(lengths),
        4,
        |_x, _h, _c| Ok(decoder_outputs(0)),
        |_enc, _dec| {
            *joins.borrow_mut() += 1;
            Ok(Output::Ready(scores(4, 5)))
        },
    )
    .unwrap();
    let n = *joins.borrow();
    n
}

#[test]
fn lengths_bound_the_frames() {
    assert_eq!(joined_frames(vec![2]), 2);
    assert_eq!(joined_frames(vec![9]), 3);
    assert_eq!(joined_frames(vec![0]), 0);
    assert_eq!(joined_frames(vec![]), 0);
    assert_eq!(joined_frames(vec![-1]), 3);
    assert_eq!(joined_frames(vec![1, 3]), 1);
}

#[test]
fn missing_outputs_are_named_in_order() {
    let ok_join = |_e: Tensor, _d: Tensor| Ok(Output::Ready(scores(4, 5)));
    let ok_decode = |_x: i64, _h: Tensor, _c: Tensor| Ok(decoder_outputs(0));
    match run_rnnt(Output::Missing, Output::Missing, 4, ok_decode, ok_join) {
        Err(GigaamError::OutputNotFound(n)) => assert_eq!(n, "encoded"),
        other => panic!("{:?}", other),
    }
    let mistyped = Output::Unreadable("f64".to_string());
    match run_rnnt(mistyped, Output::Missing, 4, ok_decode, ok_join) {
        Err(GigaamError::Ort(w)) => assert_eq!(w, "f64"),
        other => panic!("{:?}", other),
    }
    match run_rnnt(encoded(), Output::Missing, 4, ok_decode, ok_join) {
        Err(GigaamError::OutputNotFound(n)) => assert_eq!(n, "encoded_len"),
        other => panic!("{:?}", other),
    }
    let no_h = |_x: i64, _h: Tensor, _c: Tensor| {
        Ok(DecoderOutputs { h: Output::Missing, c: Output::Missing, ..decoder_outputs(0) })
    };
    match run_rnnt(encoded(), Output::Ready(vec![3]), 4, no_h, ok_join) {
        Err(GigaamError::OutputNotFound(n)) => assert_eq!(n, "h"),
        other => panic!("{:?}", other),
    }
    let bad_c = |_x: i64, _h: Tensor, _c: Tensor| {
        Ok(DecoderOutputs { c: Output::Unreadable("i64".to_string()), ..decoder_outputs(0) })
    };
    match run_rnnt(encoded(), Output::Ready(vec![3]), 4, bad_c, ok_join) {
        Err(GigaamError::Ort(w)) => assert_eq!(w, "i64"),
        other => panic!("{:?}", other),
    }
    let no_joint = |_e: Tensor, _d: Tensor| Ok(Output::Missing);
    match run_rnnt(encoded(), Output::Ready(vec![3]), 4, ok_decode, no_joint) {
        Err(GigaamError::OutputNotFound(n)) => assert_eq!(n, "joint"),
        other => panic!("{:?}", other),
    }
    let broken = |_e: Tensor, _d: Tensor| Err(GigaamError::Ort("run".to_string()));
    match run_rnnt(encoded(), Output::Ready(vec![3]), 4, ok_decode, broken) {
        Err(GigaamError::Ort(w)) => assert_eq!(w, "run"),
        other => panic!("{:?}", other),
    }
}

#[test]
fn frames_of_more_than_one_column_are_refused() {
    let wide = || Output::Ready(tensor(&[1, 1, 2, 2], &[1, 2, 3, 4]));
    let r = run_rnnt(
        wide(),
        Output::Ready(vec![2]),
        4,
        |_x, _h, _c| Ok(decoder_outputs(0)),
        |_e, _d| Ok(Output::Ready(scores(4, 5))),
    );
    assert!(matches!(r, Err(GigaamError::Shape)));
    let r = run_rnnt(
        wide(),
        Output::Ready(vec![0]),
        4,
        |_x, _h, _c| Ok(decoder_outputs(0)),
        |_e, _d| Ok(Output::Ready(scores(4, 5))),
    );
    assert_eq!(r.unwrap(), Vec::<usize>::new());
}
