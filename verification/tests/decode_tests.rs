use gigaam::decode::{ctc_greedy_decode, run_ctc, tokens_to_text};
use gigaam::error::GigaamError;
use gigaam::tensor::{Output, Tensor};

fn words(texts: &[&str]) -> Vec<String> {
    texts.iter().map(|t| t.to_string()).collect()
}

/// Scores whose best label per frame is the given one.
fn scores(labels: &[usize], vocab_size: usize) -> Vec<u32> {
    let mut out = Vec::new();
    for &l in labels {
        for v in 0..vocab_size {
            let p: f32 = if v == l { -0.1 } else { -5.0 };
            out.push(p.to_bits());
        }
    }
    out
}

#[test]
fn tokens_become_trimmed_text() {
    let vocab = words(&[" при", "вет", "!", ""]);
    assert_eq!(tokens_to_text(&[0, 1, 2], &vocab), "привет!");
    assert_eq!(tokens_to_text(&[], &vocab), "");
}

#[test]
fn tokens_outside_the_vocabulary_add_nothing() {
    let vocab = words(&["а", "б"]);
    assert_eq!(tokens_to_text(&[0, 7, 1, usize::MAX], &vocab), "аб");
}

#[test]
fn ctc_collapses_repeats_and_drops_blanks() {
    let vocab = words(&["а", "б", "<blk>"]);
    let flat = scores(&[0, 0, 2, 0, 1, 1, 1, 2], 3);
    assert_eq!(ctc_greedy_decode(&flat, 8, 3, &vocab, 2), "ааб");
}

#[test]
fn ctc_keeps_repeats_parted_by_a_blank() {
    let vocab = words(&["а", "<blk>"]);
    assert_eq!(ctc_greedy_decode(&scores(&[0, 0], 2), 2, 2, &vocab, 1), "а");
    assert_eq!(ctc_greedy_decode(&scores(&[0, 1, 0], 2), 3, 2, &vocab, 1), "аа");
}

#[test]
fn ctc_ignores_a_longer_frame_and_a_closing_blank() {
    let vocab = words(&["а", "б", "<blk>"]);
    let short = ctc_greedy_decode(&scores(&[0, 1], 3), 2, 3, &vocab, 2);
    assert_eq!(ctc_greedy_decode(&scores(&[0, 1, 1], 3), 3, 3, &vocab, 2), short);
    assert_eq!(ctc_greedy_decode(&scores(&[0, 0, 1], 3), 3, 3, &vocab, 2), short);
    assert_eq!(ctc_greedy_decode(&scores(&[0, 1, 2], 3), 3, 3, &vocab, 2), short);
}

#[test]
fn ctc_collapses_each_side_of_a_blank_on_its_own() {
    let vocab = words(&["а", "б", "<blk>"]);
    let decode = |labels: &[usize]| {
        ctc_greedy_decode(&scores(labels, 3), labels.len(), 3, &vocab, 2)
    };
    let (before, after) = ([1, 0, 0], [0, 0, 1]);
    let all = [1, 0, 0, 2, 0, 0, 1];
    assert_eq!(decode(&all), format!("{}{}", decode(&before), decode(&after)));
    assert_eq!(decode(&all), "бааб");
}

#[test]
fn ctc_of_nothing_is_nothing() {
    let vocab = words(&["а", "<blk>"]);
    assert_eq!(ctc_greedy_decode(&[], 0, 2, &vocab, 1), "");
    assert_eq!(ctc_greedy_decode(&[], 3, 0, &vocab, 1), "а");
}

#[test]
fn ctc_passes_over_labels_outside_the_vocabulary() {
    let vocab = words(&["а"]);
    assert_eq!(ctc_greedy_decode(&scores(&[0, 3, 0], 4), 3, 4, &vocab, 1), "аа");
}

#[test]
fn ctc_output_has_frames_and_labels() {
    let t = Tensor { shape: vec![1, 2, 3], data: vec![1, 2, 3, 4, 5, 6] };
    let (flat, t_out, vocab_size) = run_ctc(Output::Ready(t)).unwrap();
    assert_eq!((flat, t_out, vocab_size), (vec![1, 2, 3, 4, 5, 6], 2, 3));
    match run_ctc(Output::Missing) {
        Err(GigaamError::OutputNotFound(name)) => assert_eq!(name, "log_probs"),
        other => panic!("{:?}", other),
    }
}
