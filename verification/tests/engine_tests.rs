use gigaam::download::{Download, DownloadStep, FileTransfer, HF_BASE};
use gigaam::engine::{GigaamEngine, LoadOutcome, ModelStatus};
use gigaam::error::GigaamError;
use gigaam::model::{session_bases, session_file, vocab_file, GigaamKind, GigaamModel};
use gigaam::registry::{find_model, registry};

const CTC: &str = "gigaam-v3-e2e-ctc-int8";
const RNNT: &str = "gigaam-v3-e2e-rnnt-int8";

fn engine() -> GigaamEngine<String> {
    GigaamEngine::new_with_models_dir(Some("/data/models".to_string())).unwrap()
}

fn empty_disk() -> Vec<Vec<Option<u64>>> {
    vec![vec![None; 2], vec![None; 4]]
}

fn full_disk() -> Vec<Vec<Option<u64>>> {
    registry()
        .iter()
        .map(|s| s.files.iter().map(|f| Some(f.size)).collect())
        .collect()
}

fn loaded(kind: GigaamKind) -> LoadOutcome {
    LoadOutcome::Loaded(GigaamModel::new(kind, Ok(()), Ok("<blk> 0\n".to_string())).unwrap())
}

fn status(sizes: &[Option<u64>]) -> ModelStatus {
    engine().disk_status(&find_model(CTC).unwrap(), &sizes.to_vec())
}

#[test]
fn the_registry_offers_two_models() {
    let specs = registry();
    assert_eq!(specs.len(), 2);
    assert_eq!((specs[0].name, specs[0].kind, specs[0].size_mb), (CTC, GigaamKind::Ctc, 225));
    assert_eq!((specs[1].name, specs[1].kind, specs[1].size_mb), (RNNT, GigaamKind::Rnnt, 226));
    assert_eq!(
        specs[0].description,
        "GigaAM-v3 CTC (Сбер) — русский, быстрый, с пунктуацией"
    );
    assert_eq!(
        specs[1].description,
        "GigaAM-v3 RNN-T (Сбер) — русский, максимальная точность, с пунктуацией"
    );
    let sizes: Vec<u64> = specs[1].files.iter().map(|f| f.size).collect();
    assert_eq!(sizes, vec![224_570_000, 1_160_000, 690_000, 12_000]);
}

#[test]
fn megabytes_are_those_of_the_files() {
    for s in registry() {
        let total: u64 = s.files.iter().map(|f| f.size).sum();
        assert_eq!((total + 500_000) / 1_000_000, s.size_mb as u64);
    }
}

#[test]
fn models_are_found_by_name() {
    assert_eq!(find_model(RNNT).unwrap().kind, GigaamKind::Rnnt);
    assert!(find_model("gigaam").is_none());
}

#[test]
fn a_model_consists_of_the_files_it_is_loaded_from() {
    for s in registry() {
        let mut expected: Vec<String> = session_bases(s.kind)
            .iter()
            .map(|b| session_file(b, true, true))
            .collect();
        expected.push(vocab_file(s.kind));
        let local: Vec<&str> = s.files.iter().map(|f| f.local).collect();
        let remote: Vec<&str> = s.files.iter().map(|f| f.remote).collect();
        assert_eq!(local, expected);
        assert_eq!(remote, expected);
    }
}

#[test]
fn an_engine_needs_a_directory() {
    match GigaamEngine::<String>::new_with_models_dir(None) {
        Err(e) => assert_eq!(e, "models directory not set"),
        Ok(_) => panic!("no directory was given"),
    }
    let e = engine();
    assert_eq!(e.get_models_directory().base, "/data/models");
    assert_eq!(e.get_models_directory().parts, vec!["gigaam"]);
    assert_eq!(e.model_dir(CTC).parts, vec!["gigaam", CTC]);
    assert!(!e.is_model_loaded());
    assert_eq!(e.get_current_model(), None);
}

#[test]
fn complete_models_are_available() {
    assert_eq!(status(&[Some(224_891_000), Some(3_000)]), ModelStatus::Available);
    assert_eq!(status(&[Some(112_445_500), Some(1_500)]), ModelStatus::Available);
}

#[test]
fn truncated_or_incomplete_models_are_corrupted() {
    assert_eq!(status(&[Some(112_445_499), Some(3_000)]), ModelStatus::Corrupted);
    assert_eq!(status(&[Some(224_891_000), Some(1_499)]), ModelStatus::Corrupted);
    assert_eq!(status(&[Some(224_891_000), None]), ModelStatus::Corrupted);
}

#[test]
fn models_without_their_first_file_are_missing() {
    assert_eq!(status(&[None, None]), ModelStatus::Missing);
    assert_eq!(status(&[None, Some(3_000)]), ModelStatus::Missing);
}

#[test]
fn discovery_offers_every_model() {
    let mut e = engine();
    assert_eq!(e.known_status(CTC), None);
    let mut disk = full_disk();
    disk[1][2] = None;
    let infos = e.discover_models(&disk).unwrap();
    assert_eq!(infos.len(), 2);
    assert_eq!(infos[0].name, CTC);
    assert_eq!(infos[0].size_mb, 225);
    assert_eq!(infos[0].language, "ru");
    assert_eq!(infos[0].status, ModelStatus::Available);
    assert_eq!(infos[1].status, ModelStatus::Corrupted);
    assert_eq!(e.known_status(CTC), Some(ModelStatus::Available));
    assert_eq!(e.known_status(RNNT), Some(ModelStatus::Corrupted));
    assert_eq!(e.known_status("x"), None);
}

#[test]
fn discovery_twice_is_discovery_once() {
    let mut e = engine();
    let first: Vec<ModelStatus> =
        e.discover_models(&full_disk()).unwrap().iter().map(|m| m.status).collect();
    let second: Vec<ModelStatus> =
        e.discover_models(&full_disk()).unwrap().iter().map(|m| m.status).collect();
    assert_eq!(first, second);
}

#[test]
fn downloading_shows_until_it_ends() {
    let mut e = engine();
    e.begin_download(CTC).unwrap();
    assert!(e.is_downloading(CTC));
    assert!(!e.is_downloading(RNNT));
    let infos = e.discover_models(&full_disk()).unwrap();
    assert_eq!(infos[0].status, ModelStatus::Downloading);
    assert_eq!(infos[1].status, ModelStatus::Available);
    let r = e.download_model_detailed(CTC, Err("broken pipe".to_string()), &empty_disk());
    assert_eq!(r, Err("broken pipe".to_string()));
    assert!(!e.is_downloading(CTC));
    assert_eq!(e.known_status(CTC), Some(ModelStatus::Missing));
}

#[test]
fn unknown_models_are_refused() {
    let mut e = engine();
    let words = "Unknown GigaAM model: x".to_string();
    assert_eq!(e.begin_download("x").err(), Some(words.clone()));
    assert!(!e.is_downloading("x"));
    assert_eq!(e.download_model_detailed("x", Ok(()), &empty_disk()), Err(words.clone()));
    assert_eq!(e.known_status(CTC), None);
    assert_eq!(e.load_model("x", &Vec::new(), loaded(GigaamKind::Ctc)), Err(words.clone()));
    assert_eq!(e.prepare_load("x", &Vec::new()).err(), Some(words));
}

#[test]
fn loading_makes_a_model_current() {
    let mut e = engine();
    let sizes = full_disk()[1].clone();
    assert_eq!(e.prepare_load(RNNT, &sizes).unwrap().kind, GigaamKind::Rnnt);
    e.load_model(RNNT, &sizes, loaded(GigaamKind::Rnnt)).unwrap();
    assert!(e.is_model_loaded());
    assert_eq!(e.get_current_model(), Some(RNNT.to_string()));
    assert_eq!(e.model().unwrap().kind(), GigaamKind::Rnnt);
}

#[test]
fn failed_loading_leaves_the_loaded_model() {
    let mut e = engine();
    e.load_model(CTC, &full_disk()[0], loaded(GigaamKind::Ctc)).unwrap();
    let incomplete = vec![None; 4];
    assert_eq!(
        e.load_model(RNNT, &incomplete, loaded(GigaamKind::Rnnt)),
        Err(format!("GigaAM model '{}' is not fully downloaded", RNNT))
    );
    assert_eq!(
        e.load_model(RNNT, &full_disk()[1], LoadOutcome::Interrupted("panic".to_string())),
        Err("load task join error: panic".to_string())
    );
    assert_eq!(
        e.load_model(RNNT, &full_disk()[1], LoadOutcome::Failed(GigaamError::Shape)),
        Err("Failed to load GigaAM model: ndarray shape error".to_string())
    );
    assert_eq!(e.get_current_model(), Some(CTC.to_string()));
}

#[test]
fn deletion_unloads_the_current_model() {
    let mut e = engine();
    e.load_model(CTC, &full_disk()[0], loaded(GigaamKind::Ctc)).unwrap();
    assert_eq!(
        e.delete_model(RNNT, Ok(()), &full_disk()),
        Ok(format!("Deleted GigaAM model {}", RNNT))
    );
    assert!(e.is_model_loaded());
    assert_eq!(e.delete_model(CTC, Err("busy".to_string()), &full_disk()), Err("busy".to_string()));
    assert!(!e.is_model_loaded());
    assert_eq!(e.get_current_model(), None);
    assert_eq!(
        e.delete_model(CTC, Ok(()), &empty_disk()),
        Ok(format!("Deleted GigaAM model {}", CTC))
    );
    assert_eq!(e.known_status(CTC), Some(ModelStatus::Missing));
}

/// The file that the download asks for, which is then there.
fn fetch(d: &mut Download) -> FileTransfer {
    match d.next() {
        DownloadStep::Fetch(file) => {
            d.accept(Ok(()));
            file
        }
        other => panic!("{:?}", other),
    }
}

fn is_over(d: &Download, words: &str) -> bool {
    matches!(d.next(), DownloadStep::Over(Err(e)) if e == words)
}

/// A download that waits for the first chunk of its first file.
fn reading(e: &mut GigaamEngine<String>, name: &str) -> Download {
    let mut d = e.begin_download(name).unwrap();
    assert!(matches!(d.next(), DownloadStep::Prepare));
    d.accept(Ok(()));
    fetch(&mut d);
    assert!(matches!(d.next(), DownloadStep::Read));
    d
}

#[test]
fn a_download_fetches_file_after_file() {
    let mut e = engine();
    let mut d: Download = e.begin_download(CTC).unwrap();
    assert_eq!(d.bytes(), (0, 224_894_000));
    assert!(matches!(d.next(), DownloadStep::Prepare));
    d.accept(Ok(()));
    let first = fetch(&mut d);
    assert_eq!(first.url, format!("{}/v3_e2e_ctc.int8.onnx", HF_BASE));
    assert_eq!(first.local, "v3_e2e_ctc.int8.onnx");
    for (len, sum) in [(1000, 1000), (20, 1020)] {
        assert!(matches!(d.next(), DownloadStep::Read));
        d.receive(&e, Some(Ok(len)));
        assert!(matches!(d.next(), DownloadStep::Write(n) if n == len));
        d.accept(Ok(()));
        assert!(matches!(d.next(), DownloadStep::Report));
        assert_eq!(d.bytes(), (sum, 224_894_000));
        d.accept(Ok(()));
    }
    d.receive(&e, None);
    assert!(matches!(d.next(), DownloadStep::Flush));
    d.accept(Ok(()));
    let second = fetch(&mut d);
    assert_eq!(
        second.url,
        "https://huggingface.co/istupakov/gigaam-v3-onnx/resolve/main/v3_e2e_ctc_vocab.txt"
    );
    d.receive(&e, Some(Ok(4)));
    d.accept(Ok(()));
    d.accept(Ok(()));
    d.receive(&e, None);
    d.accept(Ok(()));
    assert!(matches!(d.next(), DownloadStep::Over(Ok(()))));
    let p = d.progress(7);
    assert_eq!((p.percent, p.downloaded_bytes, p.total_bytes), (7, 1024, 224_894_000));
}

#[test]
fn the_accurate_model_is_a_little_larger() {
    let d = engine().begin_download(RNNT).unwrap();
    assert_eq!(d.bytes(), (0, 226_432_000));
}

#[test]
fn a_cancelled_download_ends_at_its_next_chunk() {
    for chunk in [Ok(5), Err("reset".to_string())] {
        let mut e = engine();
        let mut d = reading(&mut e, CTC);
        let mut other = reading(&mut e, RNNT);
        e.cancel_download(CTC).unwrap();
        d.receive(&e, Some(chunk));
        assert!(is_over(&d, "Download cancelled"));
        assert_eq!(d.bytes().0, 0);
        other.receive(&e, Some(Ok(5)));
        assert!(matches!(other.next(), DownloadStep::Write(5)));
        e.cancel_download("x").unwrap();
        assert!(e.is_downloading(RNNT));
    }
}

#[test]
fn nothing_follows_the_end_of_a_download() {
    let mut e = engine();
    let mut d = reading(&mut e, CTC);
    e.cancel_download(CTC).unwrap();
    d.receive(&e, Some(Ok(5)));
    e.begin_download(CTC).unwrap();
    d.accept(Ok(()));
    d.receive(&e, Some(Ok(5)));
    d.receive(&e, None);
    d.accept(Err("late".to_string()));
    assert!(is_over(&d, "Download cancelled"));
    assert_eq!(d.bytes().0, 0);
}

#[test]
fn a_failed_step_ends_the_download() {
    let broken = || Err("disk full".to_string());
    let mut e = engine();
    let mut d = e.begin_download(CTC).unwrap();
    d.accept(broken());
    assert!(is_over(&d, "disk full"));
    let mut d = e.begin_download(CTC).unwrap();
    d.accept(Ok(()));
    d.accept(broken());
    assert!(is_over(&d, "disk full"));
    let mut d = reading(&mut e, CTC);
    d.receive(&e, Some(Ok(5)));
    d.accept(broken());
    assert!(is_over(&d, "disk full"));
    assert_eq!(d.bytes().0, 0);
    let mut d = reading(&mut e, CTC);
    d.receive(&e, None);
    d.accept(broken());
    assert!(is_over(&d, "disk full"));
    let mut d = reading(&mut e, CTC);
    d.receive(&e, Some(Err("reset".to_string())));
    assert!(is_over(&d, "reset"));
}
