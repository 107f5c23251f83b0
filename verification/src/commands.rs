//! The commands that the user interface gives, and the events it is told.
//!
//! A command works on the application's engine, of which there is none until
//! `gigaam_init`. What a command needs from the disk, the network or a loading
//! task is handed in.
use vstd::prelude::*;

use crate::download::{download_of, Download, DownloadProgress};
use crate::engine::{
    covers_disk, covers_model, discovered, disk_view, fits_name, info_views, is_answer, load_result,
    opt_text, said, unit_view, unknown_model, EngineView, GigaamEngine, LoadOutcome, ModelInfo,
    ModelInfoView, ModelPath, ModelStatus,
};
use crate::error::GigaamError;
use crate::model::{networks_ready, EncoderOutputs};
use crate::registry::known_model;
use crate::rnnt::DecoderOutputs;
use crate::tensor::{Output, Tensor};
use crate::text::{join, join3, same_text};
use crate::vocab::texts;

verus! {

/// The application's engine, once there is one.
pub struct GigaamState<P> {
    pub engine: Option<GigaamEngine<P>>,
}

impl<P> View for GigaamState<P> {
    type V = Option<EngineView<P>>;

    open spec fn view(&self) -> Option<EngineView<P>> {
        match self.engine {
            Some(e) => Some(e@),
            None => None,
        }
    }
}

/// What every command keeps.
pub open spec fn state_wf<P>(s: Option<EngineView<P>>) -> bool {
    s matches Some(e) ==> e.wf()
}

/// The words of a command that finds no engine.
pub open spec fn not_initialized() -> Seq<char> {
    "GigaAM engine not initialized"@
}

fn no_engine() -> (r: String)
    ensures
        r@ == not_initialized(),
{
    "GigaAM engine not initialized".to_owned()
}

/// What the user interface is told.
#[derive(Debug)]
pub enum GigaamEvent {
    LoadingStarted { model_name: String },
    LoadingCompleted { model_name: String },
    LoadingFailed { model_name: String, error: String },
    Progress { model_name: String, progress: DownloadProgress, status: String },
    Cancelled { model_name: String, percent: u32, status: String },
    DownloadComplete { model_name: String },
    DownloadError { model_name: String, error: String },
}

/// A `GigaamEvent` with its texts as sequences of characters.
pub enum GigaamEventView {
    LoadingStarted { model_name: Seq<char> },
    LoadingCompleted { model_name: Seq<char> },
    LoadingFailed { model_name: Seq<char>, error: Seq<char> },
    Progress { model_name: Seq<char>, progress: DownloadProgress, status: Seq<char> },
    Cancelled { model_name: Seq<char>, percent: u32, status: Seq<char> },
    DownloadComplete { model_name: Seq<char> },
    DownloadError { model_name: Seq<char>, error: Seq<char> },
}

impl View for GigaamEvent {
    type V = GigaamEventView;

    open spec fn view(&self) -> GigaamEventView {
        match self {
            GigaamEvent::LoadingStarted { model_name } => GigaamEventView::LoadingStarted {
                model_name: model_name@,
            },
            GigaamEvent::LoadingCompleted { model_name } => GigaamEventView::LoadingCompleted {
                model_name: model_name@,
            },
            GigaamEvent::LoadingFailed { model_name, error } => GigaamEventView::LoadingFailed {
                model_name: model_name@,
                error: error@,
            },
            GigaamEvent::Progress { model_name, progress, status } => GigaamEventView::Progress {
                model_name: model_name@,
                progress: *progress,
                status: status@,
            },
            GigaamEvent::Cancelled { model_name, percent, status } => GigaamEventView::Cancelled {
                model_name: model_name@,
                percent: *percent,
                status: status@,
            },
            GigaamEvent::DownloadComplete { model_name } => GigaamEventView::DownloadComplete {
                model_name: model_name@,
            },
            GigaamEvent::DownloadError { model_name, error } => GigaamEventView::DownloadError {
                model_name: model_name@,
                error: error@,
            },
        }
    }
}

/// The name under which an event is sent.
pub open spec fn topic_of(e: GigaamEventView) -> Seq<char> {
    match e {
        GigaamEventView::LoadingStarted { .. } => "gigaam-model-loading-started"@,
        GigaamEventView::LoadingCompleted { .. } => "gigaam-model-loading-completed"@,
        GigaamEventView::LoadingFailed { .. } => "gigaam-model-loading-failed"@,
        GigaamEventView::Progress { .. } => "gigaam-model-download-progress"@,
        GigaamEventView::Cancelled { .. } => "gigaam-model-download-progress"@,
        GigaamEventView::DownloadComplete { .. } => "gigaam-model-download-complete"@,
        GigaamEventView::DownloadError { .. } => "gigaam-model-download-error"@,
    }
}

impl GigaamEvent {
    /// The name under which the event is sent.
    pub fn topic(&self) -> (r: &'static str)
        ensures
            r@ == topic_of(self@),
    {
        match self {
            GigaamEvent::LoadingStarted { .. } => "gigaam-model-loading-started",
            GigaamEvent::LoadingCompleted { .. } => "gigaam-model-loading-completed",
            GigaamEvent::LoadingFailed { .. } => "gigaam-model-loading-failed",
            GigaamEvent::Progress { .. } => "gigaam-model-download-progress",
            GigaamEvent::Cancelled { .. } => "gigaam-model-download-progress",
            GigaamEvent::DownloadComplete { .. } => "gigaam-model-download-complete",
            GigaamEvent::DownloadError { .. } => "gigaam-model-download-error",
        }
    }
}

/// What is said of a download that is this far.
pub open spec fn progress_status(percent: u32) -> Seq<char> {
    if percent >= 100 {
        "completed"@
    } else {
        "downloading"@
    }
}

/// The event for a download that is this far.
pub fn progress_event(model_name: &str, progress: DownloadProgress) -> (r: GigaamEvent)
    ensures
        r@ == (GigaamEventView::Progress {
            model_name: model_name@,
            progress,
            status: progress_status(progress.percent),
        }),
{
    let status = if progress.percent >= 100 {
        "completed".to_owned()
    } else {
        "downloading".to_owned()
    };
    GigaamEvent::Progress { model_name: model_name.to_owned(), progress, status }
}

/// Infos or the words of a failure.
pub open spec fn infos_view(r: Result<Vec<ModelInfo>, String>) -> Result<
    Seq<ModelInfoView>,
    Seq<char>,
> {
    match r {
        Ok(infos) => Ok(info_views(infos@)),
        Err(e) => Err(e@),
    }
}

/// Creates the engine, unless there is one. `models_dir` is the directory that
/// was set, if any, and `created` says what came of creating the engine's own
/// under it.
pub fn gigaam_init<P>(
    state: &mut GigaamState<P>,
    models_dir: Option<P>,
    created: Result<(), String>,
) -> (r: Result<(), String>)
    requires
        state_wf(old(state)@),
    ensures
        state_wf(final(state)@),
        match (old(state)@, models_dir, created) {
            (Some(_), _, _) => r is Ok && final(state)@ == old(state)@,
            (None, None, _) => {
                &&& unit_view(r) == Err::<(), Seq<char>>(
                    "Failed to initialize GigaAM engine: "@ + "models directory not set"@,
                )
                &&& final(state)@ is None
            },
            (None, Some(_), Err(e)) => {
                &&& unit_view(r) == Err::<(), Seq<char>>(
                    "Failed to initialize GigaAM engine: "@ + e@,
                )
                &&& final(state)@ is None
            },
            (None, Some(dir), Ok(_)) => {
                &&& r is Ok
                &&& final(state)@ == Some(
                    EngineView {
                        base: dir,
                        model: None,
                        current: None,
                        available: Map::empty(),
                        active: Set::empty(),
                    },
                )
            },
        },
{
    if state.engine.is_some() {
        return Ok(());
    }
    match GigaamEngine::new_with_models_dir(models_dir) {
        Err(e) => Err(join("Failed to initialize GigaAM engine: ", e.as_str())),
        Ok(engine) => match created {
            Err(e) => Err(join("Failed to initialize GigaAM engine: ", e.as_str())),
            Ok(_) => {
                state.engine = Some(engine);
                Ok(())
            },
        },
    }
}

/// The state after a look at the disk.
pub open spec fn after_look<P>(
    s: Option<EngineView<P>>,
    disk: Seq<Seq<Option<u64>>>,
) -> Option<EngineView<P>> {
    match s {
        Some(e) => Some(e.after_discovery(disk)),
        None => None,
    }
}

/// What is offered.
pub fn gigaam_get_available_models<P>(
    state: &mut GigaamState<P>,
    disk: &Vec<Vec<Option<u64>>>,
) -> (r: Result<Vec<ModelInfo>, String>)
    requires
        state_wf(old(state)@),
        covers_disk(disk_view(disk@)),
    ensures
        state_wf(final(state)@),
        final(state)@ == after_look(old(state)@, disk_view(disk@)),
        infos_view(r) == match old(state)@ {
            Some(e) => Ok::<Seq<ModelInfoView>, Seq<char>>(
                discovered(e.active, disk_view(disk@)),
            ),
            None => Err(not_initialized()),
        },
{
    match &mut state.engine {
        None => Err(no_engine()),
        Some(engine) => match engine.discover_models(disk) {
            Ok(infos) => Ok(infos),
            Err(e) => Err(join("Failed to discover GigaAM models: ", e.as_str())),
        },
    }
}

/// Some of the offered models is available.
pub open spec fn any_available(infos: Seq<ModelInfoView>) -> bool {
    exists|i: int|
        0 <= i < infos.len() && (#[trigger] infos[i]).status == ModelStatus::Available
}

/// Where the first available model stands, or the number of models.
pub open spec fn first_available(infos: Seq<ModelInfoView>) -> nat
    decreases infos.len(),
{
    if infos.len() == 0 || infos.first().status == ModelStatus::Available {
        0
    } else {
        1 + first_available(infos.drop_first())
    }
}

/// A model of this name is offered and available.
pub open spec fn is_available(infos: Seq<ModelInfoView>, name: Seq<char>) -> bool {
    exists|i: int|
        0 <= i < infos.len() && (#[trigger] infos[i]).status == ModelStatus::Available
            && infos[i].name == name
}

proof fn lemma_first_available(infos: Seq<ModelInfoView>, n: int)
    requires
        0 <= n <= infos.len(),
        forall|i: int| 0 <= i < n ==> (#[trigger] infos[i]).status != ModelStatus::Available,
        n == infos.len() || infos[n].status == ModelStatus::Available,
    ensures
        first_available(infos) == n,
    decreases n,
{
    if n > 0 {
        assert(infos[0].status != ModelStatus::Available);
        lemma_first_available(infos.drop_first(), n - 1);
    }
}

fn find_available(infos: &Vec<ModelInfo>) -> (r: usize)
    ensures
        r == first_available(info_views(infos@)),
        r <= infos.len(),
        r < infos.len() <==> any_available(info_views(infos@)),
        r < infos.len() ==> infos@[r as int].status == ModelStatus::Available,
{
    let ghost views = info_views(infos@);
    let mut i: usize = 0;
    while i < infos.len() && infos[i].status != ModelStatus::Available
        invariant
            views == info_views(infos@),
            i <= infos.len(),
            forall|j: int| 0 <= j < i ==> (#[trigger] views[j]).status != ModelStatus::Available,
        decreases infos.len() - i,
    {
        assert(views[i as int] == infos@[i as int]@);
        i = i + 1;
    }
    proof {
        if i < infos.len() {
            assert(views[i as int] == infos@[i as int]@);
        }
        lemma_first_available(views, i as int);
    }
    i
}

/// Whether some model can be loaded. Without an engine none can.
pub fn gigaam_has_available_models<P>(
    state: &mut GigaamState<P>,
    disk: &Vec<Vec<Option<u64>>>,
) -> (r: Result<bool, String>)
    requires
        state_wf(old(state)@),
        covers_disk(disk_view(disk@)),
    ensures
        state_wf(final(state)@),
        final(state)@ == after_look(old(state)@, disk_view(disk@)),
        r == Ok::<bool, String>(
            match old(state)@ {
                Some(e) => any_available(discovered(e.active, disk_view(disk@))),
                None => false,
            },
        ),
{
    match &mut state.engine {
        None => Ok(false),
        Some(engine) => match engine.discover_models(disk) {
            Ok(infos) => Ok(find_available(&infos) < infos.len()),
            Err(e) => Err(join("Failed to discover GigaAM models: ", e.as_str())),
        },
    }
}

/// Announces that a model is going to be loaded.
pub fn gigaam_begin_load<P>(state: &GigaamState<P>, model_name: &str) -> (r: Result<
    GigaamEvent,
    String,
>)
    ensures
        match r {
            Ok(e) => state@ is Some && e@ == (GigaamEventView::LoadingStarted {
                model_name: model_name@,
            }),
            Err(e) => state@ is None && e@ == not_initialized(),
        },
{
    match &state.engine {
        None => Err(no_engine()),
        Some(_) => Ok(GigaamEvent::LoadingStarted { model_name: model_name.to_owned() }),
    }
}

/// Loads a model and tells what came of it.
pub fn gigaam_load_model<P>(
    state: &mut GigaamState<P>,
    model_name: &str,
    sizes: &Vec<Option<u64>>,
    outcome: LoadOutcome,
) -> (r: (Result<(), String>, Option<GigaamEvent>))
    requires
        state_wf(old(state)@),
        covers_model(model_name@, sizes@),
        fits_name(outcome, model_name@),
    ensures
        state_wf(final(state)@),
        match old(state)@ {
            None => {
                &&& unit_view(r.0) == Err::<(), Seq<char>>(not_initialized())
                &&& r.1 is None
                &&& final(state)@ is None
            },
            Some(e) => match load_result(model_name@, sizes@, outcome) {
                Ok(m) => {
                    &&& r.0 is Ok
                    &&& r.1 matches Some(event)
                    &&& event@ == (GigaamEventView::LoadingCompleted { model_name: model_name@ })
                    &&& final(state)@ == Some(
                        EngineView { model: Some(m), current: Some(model_name@), ..e },
                    )
                },
                Err(words) => {
                    let error = "Failed to load GigaAM model: "@ + words;
                    &&& unit_view(r.0) == Err::<(), Seq<char>>(error)
                    &&& r.1 matches Some(event)
                    &&& event@ == (GigaamEventView::LoadingFailed { model_name: model_name@, error })
                    &&& final(state)@ == old(state)@
                },
            },
        },
{
    match &mut state.engine {
        None => (Err(no_engine()), None),
        Some(engine) => match engine.load_model(model_name, sizes, outcome) {
            Ok(_) => (
                Ok(()),
                Some(GigaamEvent::LoadingCompleted { model_name: model_name.to_owned() }),
            ),
            Err(e) => {
                let error = join("Failed to load GigaAM model: ", e.as_str());
                let event = GigaamEvent::LoadingFailed {
                    model_name: model_name.to_owned(),
                    error: error.clone(),
                };
                (Err(error), Some(event))
            },
        },
    }
}

/// The name of the loaded model.
pub fn gigaam_get_current_model<P>(state: &GigaamState<P>) -> (r: Result<Option<String>, String>)
    ensures
        match (state@, r) {
            (Some(e), Ok(name)) => opt_text(name) == e.current,
            (None, Err(e)) => e@ == not_initialized(),
            _ => false,
        },
{
    match &state.engine {
        None => Err(no_engine()),
        Some(engine) => Ok(engine.get_current_model()),
    }
}

/// Whether a model is loaded.
pub fn gigaam_is_model_loaded<P>(state: &GigaamState<P>) -> (r: Result<bool, String>)
    ensures
        match (state@, r) {
            (Some(e), Ok(loaded)) => loaded == (e.model is Some),
            (None, Err(e)) => e@ == not_initialized(),
            _ => false,
        },
{
    match &state.engine {
        None => Err(no_engine()),
        Some(engine) => Ok(engine.is_model_loaded()),
    }
}

/// What is said of the engine's answer.
pub open spec fn command_words(answer: Result<Seq<char>, Seq<char>>) -> Result<
    Seq<char>,
    Seq<char>,
> {
    match answer {
        Ok(text) => Ok(text),
        Err(e) => Err("GigaAM transcription failed: "@ + e),
    }
}

/// Tells the engine's answer.
pub fn report_answer(answer: Result<String, String>) -> (r: Result<String, String>)
    ensures
        said(r) == command_words(said(answer)),
{
    match answer {
        Ok(text) => Ok(text),
        Err(e) => Err(join("GigaAM transcription failed: ", e.as_str())),
    }
}

/// The text of a recording.
pub fn gigaam_transcribe_audio<P, M, C, E, D, J>(
    state: &GigaamState<P>,
    audio: &[u32],
    mel: M,
    encode_ctc: C,
    encode_rnnt: E,
    decode: D,
    join_scores: J,
) -> (r: Result<String, String>) where
    M: Fn(Vec<u32>) -> Vec<u32>,
    C: Fn(Tensor, i64) -> Result<Output<Tensor>, GigaamError>,
    E: Fn(Tensor, i64) -> Result<EncoderOutputs, GigaamError>,
    D: Fn(i64, Tensor, Tensor) -> Result<DecoderOutputs, GigaamError>,
    J: Fn(Tensor, Tensor) -> Result<Output<Tensor>, GigaamError>,

    requires
        networks_ready(mel, encode_ctc, encode_rnnt, decode, join_scores),
    ensures
        match state@ {
            None => said(r) == Err::<Seq<char>, Seq<char>>(not_initialized()),
            Some(e) => exists|answer: Result<Seq<char>, Seq<char>>|
                {
                    &&& #[trigger] is_answer(
                        e.model,
                        audio@,
                        mel,
                        encode_ctc,
                        encode_rnnt,
                        decode,
                        join_scores,
                        answer,
                    )
                    &&& said(r) == command_words(answer)
                },
        },
{
    match &state.engine {
        None => Err(no_engine()),
        Some(engine) => {
            let answer = engine.transcribe_audio(
                audio,
                mel,
                encode_ctc,
                encode_rnnt,
                decode,
                join_scores,
            );
            let ghost said_so = said(answer);
            assert(is_answer(
                engine@.model,
                audio@,
                mel,
                encode_ctc,
                encode_rnnt,
                decode,
                join_scores,
                said_so,
            ));
            report_answer(answer)
        },
    }
}

/// Where the models are kept.
pub fn gigaam_get_models_directory<P>(state: &GigaamState<P>) -> (r: Result<
    ModelPath<'_, P>,
    String,
>)
    ensures
        match (state@, r) {
            (Some(e), Ok(path)) => *path.base == e.base && texts(path.parts@) == seq!["gigaam"@],
            (None, Err(e)) => e@ == not_initialized(),
            _ => false,
        },
{
    match &state.engine {
        None => Err(no_engine()),
        Some(engine) => Ok(engine.get_models_directory()),
    }
}

/// Starts the download of a model after a look at the disk. There is none
/// without an engine or for an unknown name.
pub fn gigaam_begin_download<P>(
    state: &mut GigaamState<P>,
    model_name: &str,
    disk: &Vec<Vec<Option<u64>>>,
) -> (r: Option<Download>)
    requires
        state_wf(old(state)@),
        covers_disk(disk_view(disk@)),
    ensures
        state_wf(final(state)@),
        match (old(state)@, known_model(model_name@)) {
            (Some(e), Some(m)) => {
                let looked = e.after_discovery(disk_view(disk@));
                &&& r matches Some(d)
                &&& d@ == download_of(m)
                &&& d@.name == model_name@
                &&& d@.wf()
                &&& final(state)@ == Some(
                    EngineView { active: looked.active.insert(model_name@), ..looked },
                )
            },
            _ => {
                &&& r is None
                &&& final(state)@ == after_look(old(state)@, disk_view(disk@))
            },
        },
{
    match &mut state.engine {
        None => None,
        Some(engine) => {
            let _ = engine.discover_models(disk);
            match engine.begin_download(model_name) {
                Ok(d) => Some(d),
                Err(_) => None,
            }
        },
    }
}

/// Ends the download of a model with what came of its files, and tells. For an
/// unknown name it tells that.
pub fn gigaam_download_model<P>(
    state: &mut GigaamState<P>,
    model_name: &str,
    result: Result<(), String>,
    disk: &Vec<Vec<Option<u64>>>,
) -> (r: (Result<(), String>, Option<GigaamEvent>))
    requires
        state_wf(old(state)@),
        covers_disk(disk_view(disk@)),
    ensures
        state_wf(final(state)@),
        match old(state)@ {
            None => {
                &&& unit_view(r.0) == Err::<(), Seq<char>>(not_initialized())
                &&& r.1 is None
                &&& final(state)@ is None
            },
            Some(e) => {
                let ended = if known_model(model_name@) is Some {
                    unit_view(result)
                } else {
                    Err(unknown_model(model_name@))
                };
                &&& final(state)@ == Some(
                    if known_model(model_name@) is Some {
                        (EngineView {
                            active: e.active.remove(model_name@),
                            ..e
                        }).after_discovery(disk_view(disk@))
                    } else {
                        e
                    },
                )
                &&& r.1 matches Some(event)
                &&& match ended {
                    Ok(_) => {
                        &&& r.0 is Ok
                        &&& event@ == (GigaamEventView::DownloadComplete {
                            model_name: model_name@,
                        })
                    },
                    Err(error) => {
                        &&& unit_view(r.0) == Err::<(), Seq<char>>(
                            "Failed to download GigaAM model: "@ + error,
                        )
                        &&& event@ == (GigaamEventView::DownloadError {
                            model_name: model_name@,
                            error,
                        })
                    },
                }
            },
        },
{
    match &mut state.engine {
        None => (Err(no_engine()), None),
        Some(engine) => match engine.download_model_detailed(model_name, result, disk) {
            Ok(_) => (
                Ok(()),
                Some(GigaamEvent::DownloadComplete { model_name: model_name.to_owned() }),
            ),
            Err(e) => {
                let words = join("Failed to download GigaAM model: ", e.as_str());
                let event = GigaamEvent::DownloadError {
                    model_name: model_name.to_owned(),
                    error: e,
                };
                (Err(words), Some(event))
            },
        },
    }
}

/// Stops the download of a model, and tells.
pub fn gigaam_cancel_download<P>(state: &mut GigaamState<P>, model_name: &str) -> (r: Result<
    GigaamEvent,
    String,
>)
    requires
        state_wf(old(state)@),
    ensures
        state_wf(final(state)@),
        match old(state)@ {
            None => {
                &&& r matches Err(e)
                &&& e@ == not_initialized()
                &&& final(state)@ is None
            },
            Some(e) => {
                &&& r matches Ok(event)
                &&& event@ == (GigaamEventView::Cancelled {
                    model_name: model_name@,
                    percent: 0,
                    status: "cancelled"@,
                })
                &&& final(state)@ == Some(
                    EngineView { active: e.active.remove(model_name@), ..e },
                )
            },
        },
{
    match &mut state.engine {
        None => Err(no_engine()),
        Some(engine) => match engine.cancel_download(model_name) {
            Err(e) => Err(join("Failed to cancel GigaAM download: ", e.as_str())),
            Ok(_) => Ok(
                GigaamEvent::Cancelled {
                    model_name: model_name.to_owned(),
                    percent: 0,
                    status: "cancelled".to_owned(),
                },
            ),
        },
    }
}

/// Deletes a model, given what came of removing its directory.
pub fn gigaam_delete_corrupted_model<P>(
    state: &mut GigaamState<P>,
    model_name: &str,
    removal: Result<(), String>,
    disk: &Vec<Vec<Option<u64>>>,
) -> (r: Result<String, String>)
    requires
        state_wf(old(state)@),
        covers_disk(disk_view(disk@)),
    ensures
        state_wf(final(state)@),
        match (old(state)@, removal) {
            (None, _) => {
                &&& said(r) == Err::<Seq<char>, Seq<char>>(not_initialized())
                &&& final(state)@ is None
            },
            (Some(e), Ok(_)) => {
                &&& said(r) == Ok::<Seq<char>, Seq<char>>(
                    "Deleted GigaAM model "@ + model_name@,
                )
                &&& final(state)@ == Some(
                    e.without(model_name@).after_discovery(disk_view(disk@)),
                )
            },
            (Some(e), Err(words)) => {
                &&& said(r) == Err::<Seq<char>, Seq<char>>(
                    "Failed to delete GigaAM model: "@ + words@,
                )
                &&& final(state)@ == Some(e.without(model_name@))
            },
        },
{
    match &mut state.engine {
        None => Err(no_engine()),
        Some(engine) => match engine.delete_model(model_name, removal, disk) {
            Ok(words) => Ok(words),
            Err(e) => Err(join("Failed to delete GigaAM model: ", e.as_str())),
        },
    }
}

/// The user's choice of a provider and of its model.
#[derive(Debug)]
pub struct TranscriptConfig {
    pub provider: String,
    pub model: String,
}

/// The model that the configuration names, if it is one of this engine's: the
/// provider is GigaAM and the model is given.
pub open spec fn configured_model(config: Result<Option<TranscriptConfig>, String>) -> Option<
    Seq<char>,
> {
    match config {
        Ok(Some(c)) => if c.provider@ == "gigaam"@ && c.model@.len() > 0 {
            Some(c.model@)
        } else {
            None
        },
        _ => None,
    }
}

/// The model to load: the configured one if it is available, else the first
/// that is.
pub open spec fn chosen_model(
    configured: Option<Seq<char>>,
    infos: Seq<ModelInfoView>,
) -> Option<Seq<char>> {
    if !any_available(infos) {
        None
    } else if configured matches Some(c) && is_available(infos, c) {
        configured
    } else {
        Some(infos[first_available(infos) as int].name)
    }
}

fn has_available_name(infos: &Vec<ModelInfo>, name: &str) -> (r: bool)
    ensures
        r == is_available(info_views(infos@), name@),
{
    let ghost views = info_views(infos@);
    let mut i: usize = 0;
    while i < infos.len()
        invariant
            views == info_views(infos@),
            i <= infos.len(),
            forall|j: int|
                0 <= j < i ==> !((#[trigger] views[j]).status == ModelStatus::Available
                    && views[j].name == name@),
        decreases infos.len() - i,
    {
        assert(views[i as int] == infos@[i as int]@);
        if infos[i].status == ModelStatus::Available && same_text(infos[i].name.as_str(), name) {
            return true;
        }
        i = i + 1;
    }
    false
}

/// The model to load, if any can be.
pub fn choose_model(
    config: Result<Option<TranscriptConfig>, String>,
    infos: &Vec<ModelInfo>,
) -> (r: Option<String>)
    ensures
        opt_text(r) == chosen_model(configured_model(config), info_views(infos@)),
{
    let first = find_available(infos);
    if first >= infos.len() {
        return None;
    }
    match config {
        Ok(Some(c)) => {
            if same_text(c.provider.as_str(), "gigaam") && !c.model.as_str().is_empty()
                && has_available_name(infos, c.model.as_str()) {
                return Some(c.model);
            }
        },
        _ => {},
    }
    assert(info_views(infos@)[first as int] == infos@[first as int]@);
    Some(infos[first].name.clone())
}

/// The model that is chosen is available; the configured one is chosen whenever
/// it is.
pub proof fn chosen_model_is_available(
    configured: Option<Seq<char>>,
    infos: Seq<ModelInfoView>,
)
    ensures
        chosen_model(configured, infos) matches Some(name) ==> is_available(infos, name),
        chosen_model(configured, infos) is None <==> !any_available(infos),
        configured matches Some(c) ==> is_available(infos, c) ==> chosen_model(configured, infos)
            == configured,
{
    if any_available(infos) {
        let i = choose|i: int|
            0 <= i < infos.len() && (#[trigger] infos[i]).status == ModelStatus::Available;
        lemma_first_is_available(infos, i);
        let first = first_available(infos) as int;
        assert(infos[first].status == ModelStatus::Available);
    }
    if let Some(c) = configured {
        if is_available(infos, c) {
            let i = choose|i: int|
                0 <= i < infos.len() && (#[trigger] infos[i]).status == ModelStatus::Available
                    && infos[i].name == c;
            assert(infos[i].status == ModelStatus::Available);
        }
    }
}

proof fn lemma_first_is_available(infos: Seq<ModelInfoView>, i: int)
    requires
        0 <= i < infos.len(),
        infos[i].status == ModelStatus::Available,
    ensures
        first_available(infos) <= i,
        infos[first_available(infos) as int].status == ModelStatus::Available,
    decreases infos.len(),
{
    if infos.first().status != ModelStatus::Available {
        lemma_first_is_available(infos.drop_first(), i - 1);
    }
}

/// Whether recording can start.
#[derive(Debug)]
pub enum Readiness {
    /// With the loaded model of this name.
    Ready(String),
    /// Once the model of this name is loaded.
    NeedsLoad(String),
}

/// A readiness, or the words of a failure.
pub open spec fn readiness_view(r: Result<Readiness, String>) -> Result<
    (bool, Seq<char>),
    Seq<char>,
> {
    match r {
        Ok(Readiness::Ready(name)) => Ok((true, name@)),
        Ok(Readiness::NeedsLoad(name)) => Ok((false, name@)),
        Err(e) => Err(e@),
    }
}

/// Says with which model recording can start: the loaded one, or else, after a
/// look at the disk, the one to load first.
pub fn gigaam_validate_model_ready_with_config<P>(
    state: &mut GigaamState<P>,
    config: Result<Option<TranscriptConfig>, String>,
    disk: &Vec<Vec<Option<u64>>>,
) -> (r: Result<Readiness, String>)
    requires
        state_wf(old(state)@),
        covers_disk(disk_view(disk@)),
    ensures
        state_wf(final(state)@),
        match old(state)@ {
            None => {
                &&& readiness_view(r) == Err::<(bool, Seq<char>), Seq<char>>(not_initialized())
                &&& final(state)@ is None
            },
            Some(e) => match e.current {
                Some(name) => {
                    &&& readiness_view(r) == Ok::<(bool, Seq<char>), Seq<char>>((true, name))
                    &&& final(state)@ == old(state)@
                },
                None => {
                    &&& final(state)@ == Some(e.after_discovery(disk_view(disk@)))
                    &&& readiness_view(r) == match chosen_model(
                        configured_model(config),
                        discovered(e.active, disk_view(disk@)),
                    ) {
                        Some(name) => Ok::<(bool, Seq<char>), Seq<char>>((false, name)),
                        None => Err(
                            "No GigaAM models are available. Please download a model."@,
                        ),
                    }
                },
            },
        },
{
    match &mut state.engine {
        None => Err(no_engine()),
        Some(engine) => {
            if engine.is_model_loaded() {
                if let Some(current) = engine.get_current_model() {
                    return Ok(Readiness::Ready(current));
                }
            }
            match engine.discover_models(disk) {
                Err(e) => Err(join("Failed to discover GigaAM models: ", e.as_str())),
                Ok(infos) => match choose_model(config, &infos) {
                    None => Err(
                        "No GigaAM models are available. Please download a model.".to_owned(),
                    ),
                    Some(name) => Ok(Readiness::NeedsLoad(name)),
                },
            }
        },
    }
}

/// Loads the model that recording needs, and gives its name back.
pub fn gigaam_load_validated_model<P>(
    state: &mut GigaamState<P>,
    model_name: String,
    sizes: &Vec<Option<u64>>,
    outcome: LoadOutcome,
) -> (r: Result<String, String>)
    requires
        state_wf(old(state)@),
        covers_model(model_name@, sizes@),
        fits_name(outcome, model_name@),
    ensures
        state_wf(final(state)@),
        match old(state)@ {
            None => {
                &&& said(r) == Err::<Seq<char>, Seq<char>>(not_initialized())
                &&& final(state)@ is None
            },
            Some(e) => match load_result(model_name@, sizes@, outcome) {
                Ok(m) => {
                    &&& said(r) == Ok::<Seq<char>, Seq<char>>(model_name@)
                    &&& final(state)@ == Some(
                        EngineView { model: Some(m), current: Some(model_name@), ..e },
                    )
                },
                Err(words) => {
                    &&& said(r) == Err::<Seq<char>, Seq<char>>(
                        "Failed to load GigaAM model "@ + model_name@ + ": "@ + words,
                    )
                    &&& final(state)@ == old(state)@
                },
            },
        },
{
    match &mut state.engine {
        None => Err(no_engine()),
        Some(engine) => match engine.load_model(model_name.as_str(), sizes, outcome) {
            Ok(_) => Ok(model_name),
            Err(e) => {
                let head = join3("Failed to load GigaAM model ", model_name.as_str(), ": ");
                Err(join(head.as_str(), e.as_str()))
            },
        },
    }
}

/// Without a configured model that is available, the first available one is
/// chosen: none that is offered before it is available.
pub proof fn first_available_is_chosen(
    configured: Option<Seq<char>>,
    infos: Seq<ModelInfoView>,
    k: int,
)
    requires
        0 <= k < infos.len(),
        infos[k].status == ModelStatus::Available,
        forall|j: int| 0 <= j < k ==> (#[trigger] infos[j]).status != ModelStatus::Available,
        configured matches Some(c) ==> !is_available(infos, c),
    ensures
        chosen_model(configured, infos) == Some(infos[k].name),
{
    lemma_first_available(infos, k);
}

/// The configuration names a model of this engine if and only if its provider
/// is this one and it gives a model; the name is taken as it stands.
pub proof fn configuration_is_taken_as_given(config: TranscriptConfig, e: String)
    ensures
        config.provider@ == "gigaam"@ && config.model@ != Seq::<char>::empty() ==> configured_model(
            Ok(Some(config)),
        ) == Some(config.model@),
        config.provider@ != "gigaam"@ || config.model@ == Seq::<char>::empty() ==> configured_model(
            Ok(Some(config)),
        ) is None,
        configured_model(Ok(None)) is None,
        configured_model(Err(e)) is None,
{
    if config.model@.len() == 0 {
        assert(config.model@ =~= Seq::<char>::empty());
    }
}

/// A download is told as completed from a hundred percent on, and as going on
/// below; a transcription is told as it is, and a failure with the whole of its
/// reason.
pub proof fn what_is_told(percent: u32, text: Seq<char>, e: Seq<char>)
    ensures
        percent >= 100 ==> progress_status(percent) == "completed"@,
        percent < 100 ==> progress_status(percent) == "downloading"@,
        command_words(Ok(text)) == Ok::<Seq<char>, Seq<char>>(text),
        command_words(Err(e)) matches Err(words) && words.len() >= e.len() && words.skip(
            words.len() - e.len(),
        ) == e,
{
    let words = command_words(Err(e))->Err_0;
    assert(words.skip(words.len() - e.len()) =~= e);
}

/// A model is available if and only if it is offered under its whole name with
/// that status, at whatever place.
pub proof fn availability_is_by_name(infos: Seq<ModelInfoView>, name: Seq<char>, i: int) -> (k: int)
    ensures
        0 <= i < infos.len() && infos[i].status == ModelStatus::Available ==> any_available(infos),
        0 <= i < infos.len() && infos[i].status == ModelStatus::Available && infos[i].name == name
            ==> is_available(infos, name),
        is_available(infos, name) ==> 0 <= k < infos.len() && infos[k].status
            == ModelStatus::Available && infos[k].name == name,
        any_available(infos) ==> exists|j: int|
            0 <= j < infos.len() && (#[trigger] infos[j]).status == ModelStatus::Available,
{
    choose|k: int|
        0 <= k < infos.len() && (#[trigger] infos[k]).status == ModelStatus::Available
            && infos[k].name == name
}

/// Offers, readiness and the state after a look at the disk stand for
/// themselves; without an engine there is nothing to look at.
pub proof fn commands_stand_for_themselves<P>(
    infos: Vec<ModelInfo>,
    text: String,
    e: EngineView<P>,
    disk: Seq<Seq<Option<u64>>>,
)
    ensures
        infos_view(Ok(infos)) == Ok::<Seq<ModelInfoView>, Seq<char>>(info_views(infos@)),
        infos_view(Err(text)) == Err::<Seq<ModelInfoView>, Seq<char>>(text@),
        readiness_view(Ok(Readiness::Ready(text))) == Ok::<(bool, Seq<char>), Seq<char>>(
            (true, text@),
        ),
        readiness_view(Ok(Readiness::NeedsLoad(text))) == Ok::<(bool, Seq<char>), Seq<char>>(
            (false, text@),
        ),
        readiness_view(Err(text)) == Err::<(bool, Seq<char>), Seq<char>>(text@),
        after_look(Some(e), disk) == Some(e.after_discovery(disk)),
        after_look(None::<EngineView<P>>, disk) is None,
{
}

/// An event carries the model's whole name, and a failure the whole of its
/// words.
pub proof fn events_carry_name_and_words(
    model_name: String,
    words: String,
    progress: DownloadProgress,
    percent: u32,
)
    ensures
        (GigaamEvent::LoadingStarted { model_name })@ == (GigaamEventView::LoadingStarted {
            model_name: model_name@,
        }),
        (GigaamEvent::LoadingCompleted { model_name })@ == (GigaamEventView::LoadingCompleted {
            model_name: model_name@,
        }),
        (GigaamEvent::LoadingFailed { model_name, error: words })@ == (
        GigaamEventView::LoadingFailed { model_name: model_name@, error: words@ }),
        (GigaamEvent::Progress { model_name, progress, status: words })@ == (
        GigaamEventView::Progress { model_name: model_name@, progress, status: words@ }),
        (GigaamEvent::Cancelled { model_name, percent, status: words })@ == (
        GigaamEventView::Cancelled { model_name: model_name@, percent, status: words@ }),
        (GigaamEvent::DownloadComplete { model_name })@ == (GigaamEventView::DownloadComplete {
            model_name: model_name@,
        }),
        (GigaamEvent::DownloadError { model_name, error: words })@ == (
        GigaamEventView::DownloadError { model_name: model_name@, error: words@ }),
{
}

} // verus!
