use gigaam::error::{GigaamError, IoKind};
use gigaam::tensor::{argmax, take_output, Output};

fn bits(values: &[f32]) -> Vec<u32> {
    values.iter().map(|v| v.to_bits()).collect()
}

fn float_argmax(row: &[f32]) -> usize {
    let mut best = 0usize;
    let mut best_val = f32::NEG_INFINITY;
    for (i, &v) in row.iter().enumerate() {
        if v > best_val {
            best_val = v;
            best = i;
        }
    }
    best
}

#[test]
fn argmax_is_the_first_greatest() {
    assert_eq!(argmax(&bits(&[0.0, 3.5, 2.0, 3.5])), 1);
    assert_eq!(argmax(&bits(&[-3.0, -1.5, -2.0])), 1);
    assert_eq!(argmax(&bits(&[-1e-40, 1e-40])), 1);
}

#[test]
fn argmax_without_a_number_is_zero() {
    assert_eq!(argmax(&[]), 0);
    assert_eq!(argmax(&bits(&[f32::NAN, f32::NAN])), 0);
    assert_eq!(argmax(&bits(&[f32::NAN, f32::NEG_INFINITY])), 0);
}

#[test]
fn argmax_passes_over_nan_and_takes_infinity() {
    assert_eq!(argmax(&bits(&[f32::NAN, -7.0, f32::NAN])), 1);
    assert_eq!(argmax(&bits(&[1.0, f32::INFINITY, 2.0])), 1);
}

#[test]
fn argmax_takes_the_zeros_as_equal() {
    assert_eq!(argmax(&bits(&[-0.0, 0.0])), 0);
    assert_eq!(argmax(&bits(&[0.0, -0.0])), 0);
}

#[test]
fn argmax_agrees_with_floating_point() {
    let values = [
        f32::NEG_INFINITY,
        f32::MIN,
        -1.0,
        -f32::MIN_POSITIVE,
        -1e-42,
        -0.0,
        0.0,
        1e-42,
        f32::MIN_POSITIVE,
        1.0,
        f32::MAX,
        f32::INFINITY,
        f32::NAN,
        -f32::NAN,
    ];
    for &a in &values {
        for &b in &values {
            for &c in &values {
                let row = [a, b, c];
                assert_eq!(argmax(&bits(&row)), float_argmax(&row), "{:?}", row);
            }
        }
    }
}

#[test]
fn an_absent_output_is_a_failure() {
    assert_eq!(take_output(Output::Ready(5u8), "dec").unwrap(), 5);
    match take_output::<u8>(Output::Missing, "dec") {
        Err(GigaamError::OutputNotFound(name)) => assert_eq!(name, "dec"),
        other => panic!("{:?}", other),
    }
    match take_output::<u8>(Output::Unreadable("not f32".to_string()), "dec") {
        Err(GigaamError::Ort(words)) => assert_eq!(words, "not f32"),
        other => panic!("{:?}", other),
    }
}

#[test]
fn failures_have_their_words() {
    assert_eq!(GigaamError::Ort("x".to_string()).message(), "ORT error");
    assert_eq!(GigaamError::Io(IoKind::Other, "x".to_string()).message(), "I/O error");
    assert_eq!(GigaamError::Shape.message(), "ndarray shape error");
    assert_eq!(
        GigaamError::OutputNotFound("joint".to_string()).message(),
        "Model output not found: joint"
    );
    assert_eq!(
        GigaamError::AudioTooShort(320).message(),
        "Audio too short: need at least 320 samples"
    );
}
