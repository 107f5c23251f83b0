//! Log-mel features: a recording cut into overlapping windows, each of which
//! gives one value for every mel band.
use vstd::arithmetic::div_mod::{lemma_fundamental_div_mod, lemma_fundamental_div_mod_converse};
use vstd::prelude::*;
use vstd::slice::{slice_subrange, slice_to_vec};

use crate::tensor::{volume, Tensor, TensorView};

verus! {

/// Samples per second.
pub const SAMPLE_RATE: usize = 16_000;

/// Points of the Fourier transform.
pub const N_FFT: usize = 320;

/// Samples in a window.
pub const WIN_LENGTH: usize = 320;

/// Samples from one window to the next.
pub const HOP_LENGTH: usize = 160;

/// Mel bands.
pub const N_MELS: usize = 64;

/// Frequencies of the transform.
pub const N_FREQS: usize = 161;

/// How many windows fit in `n` samples.
pub open spec fn frames_in(n: int) -> int {
    if n < WIN_LENGTH {
        0
    } else {
        1 + (n - WIN_LENGTH) / HOP_LENGTH as int
    }
}

/// Window `f` of a recording.
pub open spec fn window(waveform: Seq<u32>, f: int) -> Seq<u32> {
    waveform.subrange(f * HOP_LENGTH, f * HOP_LENGTH + WIN_LENGTH)
}

/// A window is as long as the transform, a fiftieth of a second, and starts
/// half a window after the one before; the frequencies are those up to half the
/// sample rate.
pub proof fn parameters_agree()
    ensures
        N_FFT == SAMPLE_RATE / 50,
        WIN_LENGTH == N_FFT,
        HOP_LENGTH == SAMPLE_RATE / 100,
        2 * HOP_LENGTH == WIN_LENGTH,
        N_FREQS == N_FFT / 2 + 1,
{
}

/// Window `f` lies in a recording of `n` samples if and only if it is one of
/// those that are counted.
pub proof fn windows_fill_recording(n: int, f: int)
    requires
        n >= 0,
        f >= 0,
    ensures
        f < frames_in(n) <==> f * HOP_LENGTH + WIN_LENGTH <= n,
{
}

/// How many windows fit in `n` samples.
pub fn frame_count(n: usize) -> (r: usize)
    ensures
        r == frames_in(n as int),
{
    if n < WIN_LENGTH {
        0
    } else {
        1 + (n - WIN_LENGTH) / HOP_LENGTH
    }
}

/// Every result of `mel` has a value for each band.
pub open spec fn gives_bands<M>(mel: M) -> bool where M: Fn(Vec<u32>) -> Vec<u32> {
    forall|w: Vec<u32>, out: Vec<u32>| #[trigger]
        call_ensures(mel, (w,), out) ==> out.len() == N_MELS
}

/// `bands` can be what `mel` gives on the samples `samples`.
pub open spec fn is_mel_of<M>(mel: M, samples: Seq<u32>, bands: Seq<u32>) -> bool where
    M: Fn(Vec<u32>) -> Vec<u32>,
 {
    exists|w: Vec<u32>, out: Vec<u32>| #[trigger]
        call_ensures(mel, (w,), out) && w@ == samples && out@ == bands
}

/// The values of frame `f` in features with `n_frames` frames.
pub open spec fn frame_bands(features: TensorView, n_frames: int, f: int) -> Seq<u32> {
    Seq::new(N_MELS as nat, |m: int| features.data[m * n_frames + f])
}

/// `features` are the log-mel features of `waveform`: one batch, the bands, and
/// a frame for each window.
pub open spec fn is_features<M>(mel: M, waveform: Seq<u32>, features: TensorView) -> bool where
    M: Fn(Vec<u32>) -> Vec<u32>,
 {
    let n = frames_in(waveform.len() as int);
    &&& features.shape == seq![1usize, N_MELS, n as usize]
    &&& features.data.len() == N_MELS * n
    &&& forall|f: int|
        0 <= f < n ==> is_mel_of(mel, window(waveform, f), #[trigger] frame_bands(features, n, f))
}

/// The rows of equal length `n_frames` that the bands form, one after the
/// other.
fn bands_first(rows: &Vec<Vec<u32>>) -> (r: Vec<u32>)
    requires
        N_MELS * rows.len() <= usize::MAX,
        forall|f: int| 0 <= f < rows.len() ==> (#[trigger] rows@[f]).len() == N_MELS,
    ensures
        r.len() == N_MELS * rows.len(),
        forall|m: int, f: int|
            0 <= m < N_MELS && 0 <= f < rows.len() ==> r@[#[trigger] (m * rows.len() + f)]
                == rows@[f]@[m],
{
    let n: usize = rows.len();
    let mut data: Vec<u32> = Vec::new();
    let mut m: usize = 0;
    while m < N_MELS
        invariant
            n == rows.len(),
            m <= N_MELS,
            data.len() == m * n,
            forall|f: int| 0 <= f < rows.len() ==> (#[trigger] rows@[f]).len() == N_MELS,
            forall|k: int|
                0 <= k < data.len() ==> #[trigger] data@[k] == rows@[k % n as int]@[k / n as int],
        decreases N_MELS - m,
    {
        let mut f: usize = 0;
        while f < n
            invariant
                n == rows.len(),
                m < N_MELS,
                f <= n,
                data.len() == m * n + f,
                forall|f: int| 0 <= f < rows.len() ==> (#[trigger] rows@[f]).len() == N_MELS,
                forall|k: int|
                    0 <= k < data.len() ==> #[trigger] data@[k]
                        == rows@[k % n as int]@[k / n as int],
            decreases n - f,
        {
            proof {
                lemma_fundamental_div_mod_converse(m * n + f, n as int, m as int, f as int);
                assert(rows@[f as int].len() == N_MELS);
            }
            data.push(rows[f][m]);
            f = f + 1;
        }
        assert((m + 1) * n == m * n + n) by (nonlinear_arith);
        m = m + 1;
    }
    assert forall|m: int, f: int| 0 <= m < N_MELS && 0 <= f < rows.len() implies data@[#[trigger] (m
        * rows.len() + f)] == rows@[f]@[m] by {
        lemma_fundamental_div_mod_converse(m * n + f, n as int, m, f);
        assert(0 <= m * n + f < N_MELS * n) by (nonlinear_arith)
            requires
                0 <= m < N_MELS,
                0 <= f < n,
        ;
    }
    data
}

/// The log-mel features of a recording, with `mel` to compute the bands of one
/// window.
pub fn log_mel_features<M>(waveform: &[u32], mel: M) -> (r: Tensor) where
    M: Fn(Vec<u32>) -> Vec<u32>,

    requires
        gives_bands(mel),
        forall|w: Vec<u32>| w.len() == WIN_LENGTH ==> #[trigger] call_requires(mel, (w,)),
    ensures
        is_features(mel, waveform@, r@),
        r@.wf(),
{
    let n_frames = frame_count(waveform.len());
    let mut rows: Vec<Vec<u32>> = Vec::new();
    let mut f: usize = 0;
    while f < n_frames
        invariant
            n_frames == frames_in(waveform@.len() as int),
            waveform@.len() <= usize::MAX,
            f <= n_frames,
            rows.len() == f,
            gives_bands(mel),
            forall|w: Vec<u32>| w.len() == WIN_LENGTH ==> #[trigger] call_requires(mel, (w,)),
            forall|g: int| 0 <= g < f ==> (#[trigger] rows@[g]).len() == N_MELS,
            forall|g: int|
                0 <= g < f ==> is_mel_of(mel, window(waveform@, g), (#[trigger] rows@[g])@),
        decreases n_frames - f,
    {
        proof {
            windows_fill_recording(waveform@.len() as int, f as int);
        }
        let start: usize = f * HOP_LENGTH;
        let frame = slice_to_vec(slice_subrange(waveform, start, start + WIN_LENGTH));
        assert(frame@ =~= window(waveform@, f as int));
        assert(frame.len() == WIN_LENGTH);
        let bands = mel(frame);
        rows.push(bands);
        f = f + 1;
    }
    let mut shape: Vec<usize> = Vec::new();
    shape.push(1);
    shape.push(N_MELS);
    shape.push(n_frames);
    let data = bands_first(&rows);
    let r = Tensor { shape, data };
    proof {
        let n = n_frames as int;
        assert(r@.shape =~= seq![1usize, N_MELS, n as usize]);
        assert forall|f: int| 0 <= f < n implies is_mel_of(
            mel,
            window(waveform@, f),
            #[trigger] frame_bands(r@, n, f),
        ) by {
            assert forall|m: int| 0 <= m < N_MELS implies frame_bands(r@, n, f)[m]
                == rows@[f]@[m] by {
                assert(r@.data[m * rows.len() + f] == rows@[f]@[m]);
            }
            assert(frame_bands(r@, n, f) =~= rows@[f]@);
        }
        lemma_volume3(1, N_MELS, n_frames);
    }
    r
}

proof fn lemma_volume3(a: usize, b: usize, c: usize)
    ensures
        volume(seq![a, b, c]) == a * (b * c),
{
    let s = seq![a, b, c];
    assert(s.drop_first() =~= seq![b, c]);
    assert(seq![b, c].drop_first() =~= seq![c]);
    assert(seq![c].drop_first() =~= Seq::<usize>::empty());
    assert(volume(Seq::<usize>::empty()) == 1);
    assert(volume(seq![c]) == c) by (nonlinear_arith)
        requires
            volume(seq![c]) == c * 1,
    ;
    assert(volume(seq![b, c]) == b * c);
}

/// A function from the samples of a window to its bands.
pub type MelFn = spec_fn(Seq<u32>) -> Seq<u32>;

/// Every result of `mel` is what `f` says.
pub open spec fn bands_as<M>(mel: M, f: MelFn) -> bool where M: Fn(Vec<u32>) -> Vec<u32> {
    forall|w: Vec<u32>, out: Vec<u32>| #[trigger] call_ensures(mel, (w,), out) ==> out@ == f(w@)
}

/// The features of a recording whose windows have the bands that `f` says: band
/// by band, and in each the windows in order.
pub open spec fn features_of(waveform: Seq<u32>, f: MelFn) -> TensorView {
    let n = frames_in(waveform.len() as int);
    TensorView {
        shape: seq![1usize, N_MELS, n as usize],
        data: Seq::new((N_MELS * n) as nat, |k: int| f(window(waveform, k % n))[k / n]),
    }
}

/// Where the bands of a window are a function of its samples, so are the
/// features of a recording.
pub proof fn features_are_determined<M>(
    mel: M,
    f: MelFn,
    waveform: Seq<u32>,
    features: TensorView,
) where M: Fn(Vec<u32>) -> Vec<u32>
    requires
        bands_as(mel, f),
        is_features(mel, waveform, features),
    ensures
        features == features_of(waveform, f),
{
    let n = frames_in(waveform.len() as int);
    assert forall|k: int| 0 <= k < N_MELS * n implies features.data[k] == f(
        window(waveform, k % n),
    )[k / n] by {
        let m = k / n;
        let t = k % n;
        lemma_fundamental_div_mod(k, n);
        assert(0 <= m < N_MELS && m * n + t == k) by (nonlinear_arith)
            requires
                0 <= k < N_MELS * n,
                k == n * m + t,
                0 <= t < n,
                n > 0,
        ;
        let bands = frame_bands(features, n, t);
        assert(is_mel_of(mel, window(waveform, t), bands));
        assert(bands == f(window(waveform, t)));
        assert(bands[m] == features.data[k]);
    }
    assert(features.data =~= features_of(waveform, f).data);
}

/// Sample `i` of window `f` is sample `160 * f + i` of the recording, for every
/// window that lies in it.
pub proof fn windows_follow_in_steps(waveform: Seq<u32>, f: int, i: int)
    requires
        0 <= f,
        0 <= i < 320,
        160 * f + 320 <= waveform.len(),
    ensures
        f < frames_in(waveform.len() as int),
        window(waveform, f).len() == 320,
        window(waveform, f)[i] == waveform[160 * f + i],
{
}

/// Half of each window is the first half of the next one.
pub proof fn windows_overlap_by_half(waveform: Seq<u32>, f: int, i: int)
    requires
        0 <= f,
        f + 1 < frames_in(waveform.len() as int),
        0 <= i < 160,
    ensures
        window(waveform, f)[i + 160] == window(waveform, f + 1)[i],
{
    windows_fill_recording(waveform.len() as int, f + 1);
}

/// Every sample up to the end of the last window lies in some window, at its
/// own distance from the window's start; behind the last window there is not
/// enough for another.
pub proof fn every_sample_is_heard(waveform: Seq<u32>, k: int) -> (f: int)
    requires
        0 <= k < waveform.len(),
        k < 160 * (frames_in(waveform.len() as int) - 1) + 320,
        320 <= waveform.len(),
    ensures
        0 <= f < frames_in(waveform.len() as int),
        160 * f <= k < 160 * f + 320,
        window(waveform, f)[k - 160 * f] == waveform[k],
        waveform.len() < 160 * frames_in(waveform.len() as int) + 320,
{
    let n = frames_in(waveform.len() as int);
    windows_fill_recording(waveform.len() as int, n - 1);
    let f = if k / 160 < n {
        k / 160
    } else {
        n - 1
    };
    windows_fill_recording(waveform.len() as int, f);
    f
}

/// Features stand band by band, and in each band frame by frame: where the
/// bands of a window are a function of its samples, the value of band `m` in
/// frame `f` is that of the 320 samples from `160 * f` on.
pub proof fn features_hold_bands<M>(
    mel: M,
    bands: MelFn,
    waveform: Seq<u32>,
    features: TensorView,
    m: int,
    f: int,
) where M: Fn(Vec<u32>) -> Vec<u32>
    requires
        bands_as(mel, bands),
        is_features(mel, waveform, features),
        320 <= waveform.len() <= usize::MAX,
        0 <= m < 64,
        0 <= f,
        160 * f + 320 <= waveform.len(),
    ensures
        ({
            let n = 1 + (waveform.len() - 320) / 160;
            &&& features.shape.len() == 3
            &&& features.shape[0] == 1
            &&& features.shape[1] == 64
            &&& features.shape[2] == n
            &&& features.data.len() == 64 * n
            &&& f < n
            &&& features.data[m * n + f] == bands(waveform.subrange(160 * f, 160 * f + 320))[m]
        }),
{
    let n = frames_in(waveform.len() as int);
    windows_fill_recording(waveform.len() as int, f);
    assert(window(waveform, f) =~= waveform.subrange(160 * f, 160 * f + 320));
    let got = frame_bands(features, n, f);
    assert(is_mel_of(mel, window(waveform, f), got));
    assert(got == bands(window(waveform, f)));
    assert(got[m] == features.data[m * n + f]);
}

/// The same of the features that a function from windows to bands gives.
pub proof fn computed_features_hold_bands(bands: MelFn, waveform: Seq<u32>, m: int, f: int)
    requires
        320 <= waveform.len() <= usize::MAX,
        0 <= m < 64,
        0 <= f,
        160 * f + 320 <= waveform.len(),
    ensures
        ({
            let n = 1 + (waveform.len() - 320) / 160;
            let features = features_of(waveform, bands);
            &&& features.shape == seq![1usize, 64usize, n as usize]
            &&& features.data.len() == 64 * n
            &&& features.data[m * n + f] == bands(waveform.subrange(160 * f, 160 * f + 320))[m]
        }),
{
    let n = frames_in(waveform.len() as int);
    windows_fill_recording(waveform.len() as int, f);
    assert(window(waveform, f) =~= waveform.subrange(160 * f, 160 * f + 320));
    lemma_fundamental_div_mod_converse(m * n + f, n, m, f);
    assert(0 <= m * n + f < 64 * n) by (nonlinear_arith)
        requires
            0 <= m < 64,
            0 <= f < n,
    ;
}

} // verus!
