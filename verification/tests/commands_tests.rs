use std::sync::Arc;

use gigaam::commands::{
    choose_model, gigaam_begin_download, gigaam_begin_load, gigaam_cancel_download,
    gigaam_delete_corrupted_model, gigaam_download_model, gigaam_get_available_models,
    gigaam_get_current_model, gigaam_get_models_directory, gigaam_has_available_models,
    gigaam_init, gigaam_is_model_loaded, gigaam_load_model, gigaam_load_validated_model,
    gigaam_transcribe_audio, gigaam_validate_model_ready_with_config, progress_event,
    report_answer, GigaamEvent, GigaamState, Readiness, TranscriptConfig,
};
use gigaam::download::DownloadProgress;
use gigaam::engine::{answer, GigaamEngine, LoadOutcome, ModelStatus};
use gigaam::error::GigaamError;
use gigaam::model::{EncoderOutputs, GigaamKind, GigaamModel};
use gigaam::provider::{provide, GigaamProvider, TranscriptionError};
use gigaam::registry::registry;
use gigaam::rnnt::DecoderOutputs;
use gigaam::tensor::{Output, Tensor};

const CTC: &str = "gigaam-v3-e2e-ctc-int8";
const RNNT: &str = "gigaam-v3-e2e-rnnt-int8";
const NONE: &str = "GigaAM engine not initialized";

fn state() -> GigaamState<String> {
    let mut s = GigaamState { engine: None };
    gigaam_init(&mut s, Some("/models".to_string()), Ok(())).unwrap();
    s
}

fn empty_disk() -> Vec<Vec<Option<u64>>> {
    vec![vec![None; 2], vec![None; 4]]
}

fn full_disk() -> Vec<Vec<Option<u64>>> {
    registry()
        .iter()
        .map(|s| s.files.iter().map(|f| Some(f.size)).collect())
        .collect()
}

fn loaded(kind: GigaamKind) -> LoadOutcome {
    let vocab = "▁да 0\n<blk> 1\n".to_string();
    LoadOutcome::Loaded(GigaamModel::new(kind, Ok(()), Ok(vocab)).unwrap())
}

fn bands(_w: Vec<u32>) -> Vec<u32> {
    vec![0; 64]
}

/// Scores of one frame for the first token.
fn ctc(_f: Tensor, _n: i64) -> Result<Output<Tensor>, GigaamError> {
    let data = vec![1.0f32.to_bits(), 0.0f32.to_bits()];
    Ok(Output::Ready(Tensor { shape: vec![1, 1, 2], data }))
}

fn rnnt(_f: Tensor, _n: i64) -> Result<EncoderOutputs, GigaamError> {
    panic!("not of this variant")
}

fn decoder(_x: i64, _h: Tensor, _c: Tensor) -> Result<DecoderOutputs, GigaamError> {
    panic!("not of this variant")
}

fn joiner(_e: Tensor, _d: Tensor) -> Result<Output<Tensor>, GigaamError> {
    panic!("not of this variant")
}

#[test]
fn commands_need_an_engine() {
    let mut s: GigaamState<String> = GigaamState { engine: None };
    assert_eq!(gigaam_get_available_models(&mut s, &full_disk()).err().unwrap(), NONE);
    assert_eq!(gigaam_has_available_models(&mut s, &full_disk()), Ok(false));
    assert_eq!(gigaam_begin_load(&s, CTC).err().unwrap(), NONE);
    let (r, event) = gigaam_load_model(&mut s, CTC, &full_disk()[0], loaded(GigaamKind::Ctc));
    assert_eq!(r, Err(NONE.to_string()));
    assert!(event.is_none());
    assert_eq!(gigaam_get_current_model(&s), Err(NONE.to_string()));
    assert_eq!(gigaam_is_model_loaded(&s), Err(NONE.to_string()));
    assert_eq!(
        gigaam_transcribe_audio(&s, &vec![0; 320], bands, ctc, rnnt, decoder, joiner),
        Err(NONE.to_string())
    );
    assert_eq!(gigaam_get_models_directory(&s).err().unwrap(), NONE);
    assert!(gigaam_begin_download(&mut s, CTC, &full_disk()).is_none());
    let (r, event) = gigaam_download_model(&mut s, CTC, Ok(()), &full_disk());
    assert_eq!(r, Err(NONE.to_string()));
    assert!(event.is_none());
    assert_eq!(gigaam_cancel_download(&mut s, CTC).err().unwrap(), NONE);
    assert_eq!(
        gigaam_delete_corrupted_model(&mut s, CTC, Ok(()), &full_disk()),
        Err(NONE.to_string())
    );
    assert_eq!(
        gigaam_validate_model_ready_with_config(&mut s, Ok(None), &full_disk()).err().unwrap(),
        NONE
    );
    assert_eq!(
        gigaam_load_validated_model(
            &mut s,
            CTC.to_string(),
            &full_disk()[0],
            loaded(GigaamKind::Ctc)
        ),
        Err(NONE.to_string())
    );
}

#[test]
fn init_creates_the_engine_once() {
    let mut s: GigaamState<String> = GigaamState { engine: None };
    assert_eq!(
        gigaam_init(&mut s, None, Ok(())),
        Err("Failed to initialize GigaAM engine: models directory not set".to_string())
    );
    assert_eq!(
        gigaam_init(&mut s, Some("/a".to_string()), Err("read-only".to_string())),
        Err("Failed to initialize GigaAM engine: read-only".to_string())
    );
    assert!(s.engine.is_none());
    gigaam_init(&mut s, Some("/a".to_string()), Ok(())).unwrap();
    gigaam_init(&mut s, None, Err("ignored".to_string())).unwrap();
    let dir = gigaam_get_models_directory(&s).unwrap();
    assert_eq!((dir.base.as_str(), dir.parts), ("/a", vec!["gigaam".to_string()]));
}

#[test]
fn available_models_are_reported() {
    let mut s = state();
    assert_eq!(gigaam_has_available_models(&mut s, &empty_disk()), Ok(false));
    assert_eq!(gigaam_has_available_models(&mut s, &full_disk()), Ok(true));
    let infos = gigaam_get_available_models(&mut s, &empty_disk()).unwrap();
    assert_eq!(infos[1].status, ModelStatus::Missing);
}

#[test]
fn loading_tells_how_it_went() {
    let mut s = state();
    let event = gigaam_begin_load(&s, CTC).unwrap();
    assert_eq!(event.topic(), "gigaam-model-loading-started");
    assert!(matches!(event, GigaamEvent::LoadingStarted { model_name } if model_name == CTC));
    let (r, event) = gigaam_load_model(&mut s, CTC, &vec![None, None], loaded(GigaamKind::Ctc));
    let words = format!(
        "Failed to load GigaAM model: GigaAM model '{}' is not fully downloaded",
        CTC
    );
    assert_eq!(r, Err(words.clone()));
    let event = event.unwrap();
    assert_eq!(event.topic(), "gigaam-model-loading-failed");
    match event {
        GigaamEvent::LoadingFailed { model_name, error } => {
            assert_eq!((model_name.as_str(), error), (CTC, words))
        }
        other => panic!("{:?}", other),
    }
    let (r, event) = gigaam_load_model(&mut s, CTC, &full_disk()[0], loaded(GigaamKind::Ctc));
    assert_eq!(r, Ok(()));
    assert_eq!(event.unwrap().topic(), "gigaam-model-loading-completed");
    assert_eq!(gigaam_is_model_loaded(&s), Ok(true));
    assert_eq!(gigaam_get_current_model(&s), Ok(Some(CTC.to_string())));
}

#[test]
fn transcription_needs_a_model_and_enough_audio() {
    let mut s = state();
    assert_eq!(
        gigaam_transcribe_audio(&s, &vec![0; 320], bands, ctc, rnnt, decoder, joiner),
        Err("GigaAM transcription failed: No GigaAM model loaded".to_string())
    );
    gigaam_load_model(&mut s, CTC, &full_disk()[0], loaded(GigaamKind::Ctc)).0.unwrap();
    assert_eq!(
        gigaam_transcribe_audio(&s, &vec![0; 320], bands, ctc, rnnt, decoder, joiner),
        Ok("да".to_string())
    );
    assert_eq!(
        gigaam_transcribe_audio(&s, &vec![0; 3], bands, ctc, rnnt, decoder, joiner),
        Err("GigaAM transcription failed: GigaAM transcription failed: Audio too short: \
             need at least 320 samples"
            .to_string())
    );
}

#[test]
fn downloads_are_announced() {
    let mut s = state();
    assert!(gigaam_begin_download(&mut s, "x", &empty_disk()).is_none());
    let (r, event) = gigaam_download_model(&mut s, "x", Ok(()), &empty_disk());
    assert_eq!(
        r,
        Err("Failed to download GigaAM model: Unknown GigaAM model: x".to_string())
    );
    let event = event.unwrap();
    assert_eq!(event.topic(), "gigaam-model-download-error");
    match event {
        GigaamEvent::DownloadError { model_name, error } => {
            assert_eq!((model_name.as_str(), error.as_str()), ("x", "Unknown GigaAM model: x"))
        }
        other => panic!("{:?}", other),
    }
    let d = gigaam_begin_download(&mut s, CTC, &empty_disk()).unwrap();
    assert_eq!(d.bytes(), (0, 224_894_000));
    assert!(s.engine.as_ref().unwrap().is_downloading(CTC));
    let (r, event) = gigaam_download_model(&mut s, CTC, Ok(()), &full_disk());
    assert_eq!(r, Ok(()));
    let event = event.unwrap();
    assert_eq!(event.topic(), "gigaam-model-download-complete");
    assert!(matches!(event, GigaamEvent::DownloadComplete { model_name } if model_name == CTC));
    assert!(!s.engine.as_ref().unwrap().is_downloading(CTC));
}

#[test]
fn progress_is_announced() {
    let p = DownloadProgress { percent: 99, downloaded_bytes: 1, total_bytes: 2 };
    let event = progress_event(CTC, p);
    assert_eq!(event.topic(), "gigaam-model-download-progress");
    match event {
        GigaamEvent::Progress { model_name, progress, status } => {
            assert_eq!((model_name.as_str(), progress, status.as_str()), (CTC, p, "downloading"))
        }
        other => panic!("{:?}", other),
    }
    for percent in [100, 101] {
        match progress_event(CTC, DownloadProgress { percent, ..p }) {
            GigaamEvent::Progress { status, .. } => assert_eq!(status, "completed"),
            other => panic!("{:?}", other),
        }
    }
}

#[test]
fn cancelling_is_announced() {
    let mut s = state();
    gigaam_begin_download(&mut s, RNNT, &empty_disk()).unwrap();
    let event = gigaam_cancel_download(&mut s, RNNT).unwrap();
    assert_eq!(event.topic(), "gigaam-model-download-progress");
    match event {
        GigaamEvent::Cancelled { model_name, percent, status } => {
            assert_eq!((model_name.as_str(), percent, status.as_str()), (RNNT, 0, "cancelled"))
        }
        other => panic!("{:?}", other),
    }
    assert!(!s.engine.as_ref().unwrap().is_downloading(RNNT));
}

#[test]
fn deletion_reports_its_outcome() {
    let mut s = state();
    assert_eq!(
        gigaam_delete_corrupted_model(&mut s, CTC, Err("busy".to_string()), &empty_disk()),
        Err("Failed to delete GigaAM model: busy".to_string())
    );
    assert_eq!(
        gigaam_delete_corrupted_model(&mut s, CTC, Ok(()), &empty_disk()),
        Ok(format!("Deleted GigaAM model {}", CTC))
    );
}

fn config(provider: &str, model: &str) -> Result<Option<TranscriptConfig>, String> {
    Ok(Some(TranscriptConfig { provider: provider.to_string(), model: model.to_string() }))
}

#[test]
fn the_configured_model_is_chosen_if_available() {
    let mut s = state();
    let both = gigaam_get_available_models(&mut s, &full_disk()).unwrap();
    assert_eq!(choose_model(config("gigaam", RNNT), &both), Some(RNNT.to_string()));
    assert_eq!(choose_model(config("whisper", RNNT), &both), Some(CTC.to_string()));
    assert_eq!(choose_model(config("gigaam", ""), &both), Some(CTC.to_string()));
    assert_eq!(choose_model(config("gigaam", "x"), &both), Some(CTC.to_string()));
    assert_eq!(choose_model(Ok(None), &both), Some(CTC.to_string()));
    assert_eq!(choose_model(Err("db".to_string()), &both), Some(CTC.to_string()));
    let mut disk = full_disk();
    disk[0][0] = None;
    let one = gigaam_get_available_models(&mut s, &disk).unwrap();
    assert_eq!(choose_model(config("gigaam", CTC), &one), Some(RNNT.to_string()));
    let none = gigaam_get_available_models(&mut s, &empty_disk()).unwrap();
    assert_eq!(choose_model(config("gigaam", CTC), &none), None);
}

#[test]
fn recording_starts_with_a_loaded_model() {
    let mut s = state();
    assert_eq!(
        gigaam_validate_model_ready_with_config(&mut s, Ok(None), &empty_disk()).err().unwrap(),
        "No GigaAM models are available. Please download a model."
    );
    match gigaam_validate_model_ready_with_config(&mut s, config("gigaam", RNNT), &full_disk()) {
        Ok(Readiness::NeedsLoad(name)) => assert_eq!(name, RNNT),
        other => panic!("{:?}", other),
    }
    assert_eq!(
        gigaam_load_validated_model(
            &mut s,
            RNNT.to_string(),
            &full_disk()[1],
            LoadOutcome::Interrupted("x".to_string())
        ),
        Err(format!("Failed to load GigaAM model {}: load task join error: x", RNNT))
    );
    assert_eq!(
        gigaam_load_validated_model(
            &mut s,
            RNNT.to_string(),
            &full_disk()[1],
            loaded(GigaamKind::Rnnt)
        ),
        Ok(RNNT.to_string())
    );
    match gigaam_validate_model_ready_with_config(&mut s, config("gigaam", CTC), &empty_disk()) {
        Ok(Readiness::Ready(name)) => assert_eq!(name, RNNT),
        other => panic!("{:?}", other),
    }
}

#[test]
fn the_provider_hands_on_what_the_engine_says() {
    let mut e = GigaamEngine::new_with_models_dir(Some("/m".to_string())).unwrap();
    e.load_model(CTC, &full_disk()[0], loaded(GigaamKind::Ctc)).unwrap();
    let p = GigaamProvider::new(Arc::new(e));
    assert_eq!(p.provider_name(), "GigaAM");
    assert!(p.is_model_loaded());
    assert_eq!(p.get_current_model(), Some(CTC.to_string()));
    let language = Some("en".to_string());
    let r = p.transcribe(&vec![0; 320], language, bands, ctc, rnnt, decoder, joiner).unwrap();
    assert_eq!((r.text.as_str(), r.confidence, r.is_partial), ("да", None, false));
    match p.transcribe(&[], None, bands, ctc, rnnt, decoder, joiner) {
        Err(TranscriptionError::EngineFailed(e)) => assert_eq!(
            e,
            "GigaAM transcription failed: Audio too short: need at least 320 samples"
        ),
        other => panic!("{:?}", other),
    }
}

#[test]
fn the_provider_hands_a_missing_encoding_on() {
    let mut e = GigaamEngine::new_with_models_dir(Some("/m".to_string())).unwrap();
    e.load_model(RNNT, &full_disk()[1], loaded(GigaamKind::Rnnt)).unwrap();
    let p = GigaamProvider::new(Arc::new(e));
    let lacking = |_f: Tensor, _n: i64| {
        Ok(EncoderOutputs { encoded: Output::Missing, encoded_len: Output::Missing })
    };
    match p.transcribe(&vec![0; 320], None, bands, ctc, lacking, decoder, joiner) {
        Err(TranscriptionError::EngineFailed(e)) => {
            assert_eq!(e, "GigaAM transcription failed: Model output not found: encoded")
        }
        other => panic!("{:?}", other),
    }
}

#[test]
fn answers_are_told() {
    let ok = || Ok("да".to_string());
    let failed = || Err("x".to_string());
    assert_eq!(report_answer(ok()), ok());
    assert_eq!(report_answer(failed()), Err("GigaAM transcription failed: x".to_string()));
    assert_eq!(provide(Ok(" да ".to_string())).unwrap().text, "да");
    assert!(matches!(provide(failed()), Err(TranscriptionError::EngineFailed(e)) if e == "x"));
    assert_eq!(
        answer(None, &vec![0; 320], bands, ctc, rnnt, decoder, joiner),
        Err("No GigaAM model loaded".to_string())
    );
}

#[test]
fn a_provider_without_a_model_fails() {
    let e: GigaamEngine<String> = GigaamEngine::new_with_models_dir(Some(String::new())).unwrap();
    let p = GigaamProvider::new(Arc::new(e));
    assert!(!p.is_model_loaded());
    assert_eq!(p.get_current_model(), None);
    match p.transcribe(&vec![0; 320], None, bands, ctc, rnnt, decoder, joiner) {
        Err(TranscriptionError::EngineFailed(e)) => assert_eq!(e, "No GigaAM model loaded"),
        other => panic!("{:?}", other),
    }
}
