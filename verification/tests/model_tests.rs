use std::cell::RefCell;

use gigaam::error::{GigaamError, IoKind};
use gigaam::features::{
    frame_count, log_mel_features, HOP_LENGTH, N_FFT, N_FREQS, N_MELS, SAMPLE_RATE, WIN_LENGTH,
};
use gigaam::model::{
    session_bases, session_file, session_files, vocab_file, EncoderOutputs, GigaamKind, GigaamModel,
};
use gigaam::rnnt::DecoderOutputs;
use gigaam::tensor::{Output, Tensor};

const VOCAB: &str = "▁да 0\nнет 1\n<blk> 2\n";

fn model(kind: GigaamKind) -> GigaamModel {
    GigaamModel::new(kind, Ok(()), Ok(VOCAB.to_string())).unwrap()
}

fn first_sample(window: Vec<u32>) -> Vec<u32> {
    (0..N_MELS as u32).map(|m| window[0] * 1000 + m).collect()
}

fn no_ctc(_f: Tensor, _n: i64) -> Result<Output<Tensor>, GigaamError> {
    panic!("the CTC encoder is not of this variant")
}

fn no_rnnt(_f: Tensor, _n: i64) -> Result<EncoderOutputs, GigaamError> {
    panic!("the RNN-T encoder is not of this variant")
}

fn no_decoder(_x: i64, _h: Tensor, _c: Tensor) -> Result<DecoderOutputs, GigaamError> {
    panic!("the decoder is not of this variant")
}

fn no_joiner(_e: Tensor, _d: Tensor) -> Result<Output<Tensor>, GigaamError> {
    panic!("the joiner is not of this variant")
}

fn row(best: usize) -> Vec<u32> {
    (0..3).map(|i| if i == best { 1.0f32 } else { -1.0 }.to_bits()).collect()
}

#[test]
fn frames_are_counted_by_the_hop() {
    assert_eq!(frame_count(0), 0);
    assert_eq!(frame_count(319), 0);
    assert_eq!(frame_count(320), 1);
    assert_eq!(frame_count(479), 1);
    assert_eq!(frame_count(480), 2);
    assert_eq!(frame_count(16_000), 99);
}

#[test]
fn the_parameters_agree() {
    assert_eq!((SAMPLE_RATE, N_FFT, WIN_LENGTH), (16_000, 320, 320));
    assert_eq!((HOP_LENGTH, N_MELS, N_FREQS), (160, 64, 161));
    assert_eq!(SAMPLE_RATE / 50, N_FFT);
    assert_eq!(SAMPLE_RATE / 100, HOP_LENGTH);
    assert_eq!(N_FFT / 2 + 1, N_FREQS);
}

#[test]
fn windows_lie_in_the_recording() {
    for n in 320..2000 {
        let frames = frame_count(n);
        assert!((frames - 1) * 160 + 320 <= n);
        assert!(frames * 160 + 320 > n);
    }
}

#[test]
fn features_stand_band_by_band() {
    let audio: Vec<u32> = (0..640).collect();
    let seen = RefCell::new(Vec::new());
    let t = log_mel_features(&audio, |w| {
        seen.borrow_mut().push((w[0], w[319], w.len()));
        first_sample(w)
    });
    assert_eq!(t.shape, vec![1, 64, 3]);
    assert_eq!(t.data.len(), 192);
    assert_eq!(*seen.borrow(), vec![(0, 319, 320), (160, 479, 320), (320, 639, 320)]);
    for m in 0..64usize {
        for f in 0..3usize {
            assert_eq!(t.data[m * 3 + f], (f as u32) * 160_000 + m as u32);
        }
    }
}

#[test]
fn a_short_recording_is_refused() {
    let r = model(GigaamKind::Ctc).transcribe_samples(
        &vec![0; 319],
        first_sample,
        no_ctc,
        no_rnnt,
        no_decoder,
        no_joiner,
    );
    match r {
        Err(GigaamError::AudioTooShort(n)) => assert_eq!(n, 320),
        other => panic!("{:?}", other),
    }
}

#[test]
fn ctc_transcribes_the_scores() {
    let asked = RefCell::new(None);
    let text = model(GigaamKind::Ctc)
        .transcribe_samples(
            &vec![0; 640],
            first_sample,
            |f, n| {
                *asked.borrow_mut() = Some((f.shape, n));
                let mut data = Vec::new();
                for best in [0, 0, 2, 1] {
                    data.extend(row(best));
                }
                Ok(Output::Ready(Tensor { shape: vec![1, 4, 3], data }))
            },
            no_rnnt,
            no_decoder,
            no_joiner,
        )
        .unwrap();
    assert_eq!(text, "данет");
    assert_eq!(*asked.borrow(), Some((vec![1, 64, 3], 3)));
}

#[test]
fn ctc_without_scores_fails() {
    let m = model(GigaamKind::Ctc);
    let r = m.transcribe_samples(
        &vec![0; 320],
        first_sample,
        |_f, _n| Ok(Output::Missing),
        no_rnnt,
        no_decoder,
        no_joiner,
    );
    match r {
        Err(GigaamError::OutputNotFound(name)) => assert_eq!(name, "log_probs"),
        other => panic!("{:?}", other),
    }
    let r = m.transcribe_samples(
        &vec![0; 320],
        first_sample,
        |_f, _n| Err(GigaamError::Ort("run".to_string())),
        no_rnnt,
        no_decoder,
        no_joiner,
    );
    assert!(matches!(r, Err(GigaamError::Ort(_))));
}

#[test]
fn rnnt_transcribes_token_by_token() {
    let text = model(GigaamKind::Rnnt)
        .transcribe_samples(
            &vec![0; 480],
            first_sample,
            no_ctc,
            |f, n| {
                assert_eq!((f.shape, n), (vec![1, 64, 2], 2));
                Ok(EncoderOutputs {
                    encoded: Output::Ready(Tensor { shape: vec![1, 1, 2], data: vec![5, 6] }),
                    encoded_len: Output::Ready(vec![2]),
                })
            },
            |x, h, c| {
                Ok(DecoderOutputs {
                    dec: Output::Ready(Tensor { shape: vec![1, 1, 1], data: vec![x as u32] }),
                    h: Output::Ready(h),
                    c: Output::Ready(c),
                })
            },
            |enc, dec| {
                // Frame 5 says token 0 after the blank, frame 6 token 1 after token 0.
                let best = match (enc.data[0], dec.data[0]) {
                    (5, 2) => 0,
                    (6, 0) => 1,
                    _ => 2,
                };
                Ok(Output::Ready(Tensor { shape: vec![1, 1, 1, 3], data: row(best) }))
            },
        )
        .unwrap();
    assert_eq!(text, "данет");
}

#[test]
fn rnnt_without_an_encoding_fails() {
    let m = model(GigaamKind::Rnnt);
    let lacking = |encoded: fn() -> Output<Tensor>| {
        m.transcribe_samples(
            &vec![0; 320],
            first_sample,
            no_ctc,
            move |_f, _n| {
                Ok(EncoderOutputs { encoded: encoded(), encoded_len: Output::Ready(vec![1]) })
            },
            no_decoder,
            no_joiner,
        )
    };
    match lacking(|| Output::Missing) {
        Err(GigaamError::OutputNotFound(name)) => assert_eq!(name, "encoded"),
        other => panic!("{:?}", other),
    }
    match lacking(|| Output::Unreadable("f64".to_string())) {
        Err(GigaamError::Ort(words)) => assert_eq!(words, "f64"),
        other => panic!("{:?}", other),
    }
}

#[test]
fn networks_have_their_files() {
    assert_eq!(session_bases(GigaamKind::Ctc), vec!["v3_e2e_ctc"]);
    assert_eq!(
        session_bases(GigaamKind::Rnnt),
        vec!["v3_e2e_rnnt_encoder", "v3_e2e_rnnt_decoder", "v3_e2e_rnnt_joint"]
    );
    assert_eq!(vocab_file(GigaamKind::Ctc), "v3_e2e_ctc_vocab.txt");
    assert_eq!(vocab_file(GigaamKind::Rnnt), "v3_e2e_rnnt_vocab.txt");
}

#[test]
fn quantized_files_are_taken_where_they_exist() {
    assert_eq!(session_file("net", true, true), "net.int8.onnx");
    assert_eq!(session_file("net", true, false), "net.onnx");
    assert_eq!(session_file("net", false, true), "net.onnx");
    assert_eq!(
        session_files(GigaamKind::Rnnt, true, &vec![true, false, true]),
        vec![
            "v3_e2e_rnnt_encoder.int8.onnx",
            "v3_e2e_rnnt_decoder.onnx",
            "v3_e2e_rnnt_joint.int8.onnx"
        ]
    );
}

#[test]
fn failures_of_the_networks_come_first() {
    let r = GigaamModel::new(
        GigaamKind::Ctc,
        Err(GigaamError::Ort("open".to_string())),
        Err(GigaamError::Io(IoKind::NotFound, "read".to_string())),
    );
    assert!(matches!(r, Err(GigaamError::Ort(_))));
    let missing = GigaamError::Io(IoKind::NotFound, "read".to_string());
    let r = GigaamModel::new(GigaamKind::Ctc, Ok(()), Err(missing));
    assert!(matches!(r, Err(GigaamError::Io(IoKind::NotFound, _))));
    let r = GigaamModel::new(GigaamKind::Ctc, Ok(()), Ok("а 0\n".to_string()));
    match r {
        Err(GigaamError::Io(IoKind::InvalidData, words)) => {
            assert_eq!(words, "Missing <blk> token in GigaAM vocabulary")
        }
        other => panic!("{:?}", other),
    }
    assert_eq!(model(GigaamKind::Rnnt).kind(), GigaamKind::Rnnt);
    assert_eq!(model(GigaamKind::Rnnt).duplicate().kind(), GigaamKind::Rnnt);
}
