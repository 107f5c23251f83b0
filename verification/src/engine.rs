//! The engine: which models are on disk, which is being downloaded, which is
//! loaded.
//!
//! The engine decides; reading the disk, loading networks and removing files is
//! done by the caller, who hands in what came of it. A directory is known only
//! as the base under which the engine names its own.
use vstd::hash_map::StringHashMap;
use vstd::hash_set::StringHashSet;
use vstd::prelude::*;

use crate::download::{download_of, Download};
use crate::error::{error_text, GigaamError, GigaamErrorView};
use crate::features::{bands_as, MelFn};
use crate::model::{
    encodes_as, is_transcription, networks_ready, scores_as, text_view, transcript,
    transcription_is_determined, CtcFn, EncoderFn, EncoderOutputs, GigaamModel, GigaamModelView,
};
use crate::registry::{
    ctc_spec, find_model, found_model_is_known, known_model, known_models, lemma_total_sizes,
    models_are_found_by_name, registry, rnnt_spec, spec_views, ModelFile, ModelFileView, ModelSpec,
    ModelSpecView,
};
use crate::rnnt::{decodes_as, joins_as, DecoderFn, DecoderOutputs, JoinerFn};
use crate::tensor::{Output, Tensor};
use crate::text::{join, join3, same_text};
use crate::vocab::texts;

verus! {

/// What is known of a model.
#[derive(Debug, Clone, Copy, PartialEq, Eq, Structural)]
pub enum ModelStatus {
    Available,
    Missing,
    Downloading,
    Corrupted,
}

/// A model as it is offered to the user.
#[derive(Debug, Clone)]
pub struct ModelInfo {
    pub name: String,
    pub size_mb: u32,
    pub description: String,
    pub language: String,
    pub status: ModelStatus,
}

/// A `ModelInfo` with its texts as sequences of characters.
#[verifier::ext_equal]
pub struct ModelInfoView {
    pub name: Seq<char>,
    pub size_mb: u32,
    pub description: Seq<char>,
    pub language: Seq<char>,
    pub status: ModelStatus,
}

impl View for ModelInfo {
    type V = ModelInfoView;

    open spec fn view(&self) -> ModelInfoView {
        ModelInfoView {
            name: self.name@,
            size_mb: self.size_mb,
            description: self.description@,
            language: self.language@,
            status: self.status,
        }
    }
}

/// The infos as sequences.
pub open spec fn info_views(infos: Seq<ModelInfo>) -> Seq<ModelInfoView> {
    infos.map_values(|m: ModelInfo| m@)
}

/// An optional text as a sequence.
pub open spec fn opt_text(o: Option<String>) -> Option<Seq<char>> {
    match o {
        Some(s) => Some(s@),
        None => None,
    }
}

/// Success or the words of a failure.
pub open spec fn unit_view(r: Result<(), String>) -> Result<(), Seq<char>> {
    match r {
        Ok(_) => Ok(()),
        Err(e) => Err(e@),
    }
}

/// A text or the words of a failure.
pub open spec fn said(r: Result<String, String>) -> Result<Seq<char>, Seq<char>> {
    match r {
        Ok(s) => Ok(s@),
        Err(e) => Err(e@),
    }
}

/// A file on disk that is at least half as long as it should be.
pub open spec fn plausible(file: ModelFileView, size: Option<u64>) -> bool {
    size matches Some(n) && n >= file.size / 2
}

/// The status of a model whose files have these sizes on disk, `None` for one
/// that is not there: available when every file is plausible, missing when
/// there is not even the first, else corrupted.
pub open spec fn status_on_disk(
    files: Seq<ModelFileView>,
    sizes: Seq<Option<u64>>,
) -> ModelStatus {
    if forall|i: int| 0 <= i < files.len() ==> plausible(#[trigger] files[i], sizes[i]) {
        ModelStatus::Available
    } else if sizes[0] is None {
        ModelStatus::Missing
    } else {
        ModelStatus::Corrupted
    }
}

/// The sizes of every known model's files.
pub open spec fn disk_view(disk: Seq<Vec<Option<u64>>>) -> Seq<Seq<Option<u64>>> {
    disk.map_values(|v: Vec<Option<u64>>| v@)
}

/// There is a size for each file of each known model.
pub open spec fn covers_disk(disk: Seq<Seq<Option<u64>>>) -> bool {
    &&& disk.len() == known_models().len()
    &&& forall|i: int|
        0 <= i < disk.len() ==> (#[trigger] disk[i]).len() == known_models()[i].files.len()
}

/// The status of known model `i`: downloading takes precedence over the disk.
pub open spec fn model_status(
    active: Set<Seq<char>>,
    disk: Seq<Seq<Option<u64>>>,
    i: int,
) -> ModelStatus {
    if active.contains(known_models()[i].name) {
        ModelStatus::Downloading
    } else {
        status_on_disk(known_models()[i].files, disk[i])
    }
}

/// The offer for known model `i`.
pub open spec fn model_info(
    active: Set<Seq<char>>,
    disk: Seq<Seq<Option<u64>>>,
    i: int,
) -> ModelInfoView {
    let m = known_models()[i];
    ModelInfoView {
        name: m.name,
        size_mb: m.size_mb,
        description: m.description,
        language: "ru"@,
        status: model_status(active, disk, i),
    }
}

/// What is offered.
pub open spec fn discovered(
    active: Set<Seq<char>>,
    disk: Seq<Seq<Option<u64>>>,
) -> Seq<ModelInfoView> {
    Seq::new(known_models().len(), |i: int| model_info(active, disk, i))
}

/// The statuses of the first `k` known models by name.
pub open spec fn status_map(
    active: Set<Seq<char>>,
    disk: Seq<Seq<Option<u64>>>,
    k: nat,
) -> Map<Seq<char>, ModelStatus>
    decreases k,
{
    if k == 0 {
        Map::empty()
    } else {
        status_map(active, disk, (k - 1) as nat).insert(
            known_models()[k - 1].name,
            model_status(active, disk, k - 1),
        )
    }
}

/// The statuses of all known models by name.
pub open spec fn statuses(
    active: Set<Seq<char>>,
    disk: Seq<Seq<Option<u64>>>,
) -> Map<Seq<char>, ModelStatus> {
    status_map(active, disk, known_models().len())
}

/// An engine's state.
#[verifier::ext_equal]
pub struct EngineView<P> {
    /// The directory under which the models are kept.
    pub base: P,
    pub model: Option<GigaamModelView>,
    pub current: Option<Seq<char>>,
    pub available: Map<Seq<char>, ModelStatus>,
    pub active: Set<Seq<char>>,
}

impl<P> EngineView<P> {
    /// What every operation keeps: a model is loaded if and only if one is
    /// current; it is a known one, of its variant; only known models are being
    /// downloaded or have a status.
    pub open spec fn wf(self) -> bool {
        &&& self.model is Some <==> self.current is Some
        &&& self.model matches Some(m) ==> {
            &&& m.wf()
            &&& known_model(self.current.unwrap()) matches Some(s)
            &&& s.kind == m.kind
        }
        &&& forall|n: Seq<char>| #[trigger] self.active.contains(n) ==> known_model(n) is Some
        &&& forall|n: Seq<char>|
            #[trigger] self.available.contains_key(n) ==> known_model(n) is Some
    }

    /// The state once the disk has been looked at.
    pub open spec fn after_discovery(self, disk: Seq<Seq<Option<u64>>>) -> EngineView<P> {
        EngineView { available: statuses(self.active, disk), ..self }
    }

    /// The state without the model of this name loaded.
    pub open spec fn without(self, name: Seq<char>) -> EngineView<P> {
        if self.current == Some(name) {
            EngineView { model: None, current: None, ..self }
        } else {
            self
        }
    }
}

/// The words for a name that is no model's.
pub open spec fn unknown_model(name: Seq<char>) -> Seq<char> {
    "Unknown GigaAM model: "@ + name
}

/// The model to load by this name, given the sizes of its files, or why it
/// cannot be loaded.
pub open spec fn loadable(name: Seq<char>, sizes: Seq<Option<u64>>) -> Result<
    ModelSpecView,
    Seq<char>,
> {
    match known_model(name) {
        None => Err(unknown_model(name)),
        Some(m) => match status_on_disk(m.files, sizes) {
            ModelStatus::Missing | ModelStatus::Corrupted => Err(
                "GigaAM model '"@ + name + "' is not fully downloaded"@,
            ),
            _ => Ok(m),
        },
    }
}

/// There is a size for each file of the model of this name.
pub open spec fn covers_model(name: Seq<char>, sizes: Seq<Option<u64>>) -> bool {
    known_model(name) matches Some(m) ==> sizes.len() == m.files.len()
}

/// What came of loading a model.
#[derive(Debug)]
pub enum LoadOutcome {
    /// The task that loads it broke off.
    Interrupted(String),
    /// It could not be loaded.
    Failed(GigaamError),
    Loaded(GigaamModel),
}

/// The model that is loaded in the end, or the words of the failure.
pub open spec fn load_result(
    name: Seq<char>,
    sizes: Seq<Option<u64>>,
    outcome: LoadOutcome,
) -> Result<GigaamModelView, Seq<char>> {
    match loadable(name, sizes) {
        Err(e) => Err(e),
        Ok(_) => match outcome {
            LoadOutcome::Interrupted(e) => Err("load task join error: "@ + e@),
            LoadOutcome::Failed(e) => Err("Failed to load GigaAM model: "@ + error_text(e@)),
            LoadOutcome::Loaded(m) => Ok(m@),
        },
    }
}

/// A model that was loaded under this name is sound and of the name's variant.
pub open spec fn fits_name(outcome: LoadOutcome, name: Seq<char>) -> bool {
    match (outcome, known_model(name)) {
        (LoadOutcome::Loaded(m), Some(s)) => m@.wf() && m@.kind == s.kind,
        _ => true,
    }
}

/// A path: a base directory and the parts to join to it, in order.
#[derive(Debug)]
pub struct ModelPath<'a, P> {
    pub base: &'a P,
    pub parts: Vec<String>,
}

/// The engine.
pub struct GigaamEngine<P> {
    models_dir: P,
    model: Option<GigaamModel>,
    current_model: Option<String>,
    pub available_models: StringHashMap<ModelStatus>,
    pub active_downloads: StringHashSet,
}

impl<P> View for GigaamEngine<P> {
    type V = EngineView<P>;

    closed spec fn view(&self) -> EngineView<P> {
        EngineView {
            base: self.models_dir,
            model: match self.model {
                Some(m) => Some(m@),
                None => None,
            },
            current: opt_text(self.current_model),
            available: self.available_models@,
            active: self.active_downloads@,
        }
    }
}

impl<P> GigaamEngine<P> {
    /// An engine that keeps its models under `models_dir`, with none loaded. It
    /// needs a directory.
    pub fn new_with_models_dir(models_dir: Option<P>) -> (r: Result<GigaamEngine<P>, String>)
        ensures
            match r {
                Ok(e) => {
                    &&& models_dir == Some(e@.base)
                    &&& e@.model is None
                    &&& e@.current is None
                    &&& e@.available == Map::<Seq<char>, ModelStatus>::empty()
                    &&& e@.active == Set::<Seq<char>>::empty()
                    &&& e@.wf()
                },
                Err(e) => models_dir is None && e@ == "models directory not set"@,
            },
    {
        match models_dir {
            None => Err("models directory not set".to_owned()),
            Some(base) => Ok(
                GigaamEngine {
                    models_dir: base,
                    model: None,
                    current_model: None,
                    available_models: StringHashMap::new(),
                    active_downloads: StringHashSet::new(),
                },
            ),
        }
    }

    /// Where the models are kept.
    pub fn get_models_directory(&self) -> (r: ModelPath<'_, P>)
        ensures
            *r.base == self@.base,
            texts(r.parts@) == seq!["gigaam"@],
    {
        let mut parts: Vec<String> = Vec::new();
        parts.push("gigaam".to_owned());
        assert(texts(parts@) =~= seq!["gigaam"@]);
        ModelPath { base: &self.models_dir, parts }
    }

    /// Where the model of this name is kept.
    pub fn model_dir(&self, name: &str) -> (r: ModelPath<'_, P>)
        ensures
            *r.base == self@.base,
            texts(r.parts@) == seq!["gigaam"@, name@],
    {
        let mut dir = self.get_models_directory();
        let ghost before = dir.parts@;
        dir.parts.push(name.to_owned());
        assert(texts(dir.parts@) =~= texts(before).push(name@));
        assert(texts(dir.parts@) =~= seq!["gigaam"@, name@]);
        dir
    }

    /// The status of a model whose files have these sizes on disk.
    pub fn disk_status(&self, s: &ModelSpec, sizes: &Vec<Option<u64>>) -> (r: ModelStatus)
        requires
            sizes.len() == s.files.len(),
        ensures
            r == status_on_disk(s@.files, sizes@),
    {
        let mut i: usize = 0;
        while i < s.files.len()
            invariant
                sizes.len() == s.files.len(),
                i <= s.files.len(),
                forall|j: int| 0 <= j < i ==> plausible(#[trigger] s@.files[j], sizes@[j]),
            decreases s.files.len() - i,
        {
            let file: ModelFile = s.files[i];
            assert(s@.files[i as int] == file@);
            match sizes[i] {
                Some(n) => {
                    if n < file.size / 2 {
                        assert(!plausible(s@.files[i as int], sizes@[i as int]));
                        if i > 0 {
                            assert(plausible(s@.files[0], sizes@[0]));
                        }
                        return ModelStatus::Corrupted;
                    }
                },
                None => {
                    assert(!plausible(s@.files[i as int], sizes@[i as int]));
                    if i > 0 {
                        assert(plausible(s@.files[0], sizes@[0]));
                        return ModelStatus::Corrupted;
                    }
                    return ModelStatus::Missing;
                },
            }
            i = i + 1;
        }
        ModelStatus::Available
    }

    /// Looks at every known model: says what is offered and keeps the statuses.
    pub fn discover_models(&mut self, disk: &Vec<Vec<Option<u64>>>) -> (r: Result<
        Vec<ModelInfo>,
        String,
    >)
        requires
            old(self)@.wf(),
            covers_disk(disk_view(disk@)),
        ensures
            final(self)@.wf(),
            final(self)@ == old(self)@.after_discovery(disk_view(disk@)),
            r matches Ok(infos) && info_views(infos@) == discovered(
                old(self)@.active,
                disk_view(disk@),
            ),
    {
        let ghost active = self@.active;
        let ghost d = disk_view(disk@);
        let specs = registry();
        let mut out: Vec<ModelInfo> = Vec::new();
        let mut status_by_name: StringHashMap<ModelStatus> = StringHashMap::new();
        let mut i: usize = 0;
        assert(info_views(out@) =~= discovered(active, d).take(0));
        while i < specs.len()
            invariant
                spec_views(specs@) == known_models(),
                i <= specs.len(),
                d == disk_view(disk@),
                covers_disk(d),
                active == self@.active,
                self@ == old(self)@,
                info_views(out@) == discovered(active, d).take(i as int),
                status_by_name@ == status_map(active, d, i as nat),
            decreases specs.len() - i,
        {
            let s = &specs[i];
            proof {
                assert(spec_views(specs@)[i as int] == s@);
                assert(d[i as int] == disk@[i as int]@);
                assert(d[i as int].len() == known_models()[i as int].files.len());
            }
            let status = if self.active_downloads.contains(s.name) {
                ModelStatus::Downloading
            } else {
                self.disk_status(s, &disk[i])
            };
            let ghost before = out@;
            status_by_name.insert(s.name.to_owned(), status);
            out.push(
                ModelInfo {
                    name: s.name.to_owned(),
                    size_mb: s.size_mb,
                    description: s.description.to_owned(),
                    language: "ru".to_owned(),
                    status,
                },
            );
            proof {
                assert(info_views(out@) =~= info_views(before).push(model_info(active, d, i as int)));
                assert(discovered(active, d).take(i + 1) =~= discovered(active, d).take(
                    i as int,
                ).push(model_info(active, d, i as int)));
            }
            i = i + 1;
        }
        self.available_models = status_by_name;
        proof {
            assert(specs@.len() == spec_views(specs@).len());
            assert(discovered(active, d).take(i as int) =~= discovered(active, d));
            assert forall|n: Seq<char>| #[trigger] statuses(active, d).contains_key(
                n,
            ) implies known_model(n) is Some by {
                lemma_status_names(active, d, known_models().len(), n);
            }
        }
        Ok(out)
    }

    /// Whether a model is loaded.
    pub fn is_model_loaded(&self) -> (r: bool)
        ensures
            r == (self@.model is Some),
    {
        self.model.is_some()
    }

    /// The name of the loaded model.
    pub fn get_current_model(&self) -> (r: Option<String>)
        ensures
            opt_text(r) == self@.current,
    {
        match &self.current_model {
            Some(name) => Some(name.clone()),
            None => None,
        }
    }

    /// The loaded model.
    pub fn model(&self) -> (r: Option<&GigaamModel>)
        ensures
            match r {
                Some(m) => self@.model == Some(m@),
                None => self@.model is None,
            },
    {
        self.model.as_ref()
    }

    /// The status that the last look at the disk gave for a model.
    pub fn known_status(&self, name: &str) -> (r: Option<ModelStatus>)
        ensures
            match r {
                Some(status) => self@.available.contains_key(name@) && self@.available[name@]
                    == status,
                None => !self@.available.contains_key(name@),
            },
    {
        match self.available_models.get(name) {
            Some(status) => Some(*status),
            None => None,
        }
    }

    /// Whether a model is being downloaded.
    pub fn is_downloading(&self, name: &str) -> (r: bool)
        ensures
            r == self@.active.contains(name@),
    {
        self.active_downloads.contains(name)
    }

    /// The model to load by this name, or why it cannot be loaded.
    pub fn prepare_load(&self, name: &str, sizes: &Vec<Option<u64>>) -> (r: Result<
        ModelSpec,
        String,
    >)
        requires
            covers_model(name@, sizes@),
        ensures
            match r {
                Ok(m) => loadable(name@, sizes@) == Ok::<ModelSpecView, Seq<char>>(m@),
                Err(e) => loadable(name@, sizes@) == Err::<ModelSpecView, Seq<char>>(e@),
            },
    {
        match find_model(name) {
            None => Err(join("Unknown GigaAM model: ", name)),
            Some(m) => {
                assert(m@.files.len() == m.files.len());
                match self.disk_status(&m, sizes) {
                    ModelStatus::Missing | ModelStatus::Corrupted => Err(
                        join3("GigaAM model '", name, "' is not fully downloaded"),
                    ),
                    _ => Ok(m),
                }
            },
        }
    }

    /// Makes the model of this name the loaded one, if it can be loaded and
    /// `outcome` says that it was. `outcome` counts only where `prepare_load`
    /// succeeds.
    pub fn load_model(
        &mut self,
        name: &str,
        sizes: &Vec<Option<u64>>,
        outcome: LoadOutcome,
    ) -> (r: Result<(), String>)
        requires
            old(self)@.wf(),
            covers_model(name@, sizes@),
            fits_name(outcome, name@),
        ensures
            final(self)@.wf(),
            match load_result(name@, sizes@, outcome) {
                Ok(m) => {
                    &&& r is Ok
                    &&& final(self)@ == (EngineView {
                        model: Some(m),
                        current: Some(name@),
                        ..old(self)@
                    })
                },
                Err(e) => {
                    &&& unit_view(r) == Err::<(), Seq<char>>(e)
                    &&& final(self)@ == old(self)@
                },
            },
    {
        match self.prepare_load(name, sizes) {
            Err(e) => Err(e),
            Ok(_) => match outcome {
                LoadOutcome::Interrupted(e) => Err(join("load task join error: ", e.as_str())),
                LoadOutcome::Failed(e) => Err(
                    join("Failed to load GigaAM model: ", e.message().as_str()),
                ),
                LoadOutcome::Loaded(m) => {
                    self.model = Some(m);
                    self.current_model = Some(name.to_owned());
                    Ok(())
                },
            },
        }
    }

    /// The text of a recording, by the loaded model.
    pub fn transcribe_audio<M, C, E, D, J>(
        &self,
        audio: &[u32],
        mel: M,
        encode_ctc: C,
        encode_rnnt: E,
        decode: D,
        join_scores: J,
    ) -> (r: Result<String, String>) where
        M: Fn(Vec<u32>) -> Vec<u32>,
        C: Fn(Tensor, i64) -> Result<Output<Tensor>, GigaamError>,
        E: Fn(Tensor, i64) -> Result<EncoderOutputs, GigaamError>,
        D: Fn(i64, Tensor, Tensor) -> Result<DecoderOutputs, GigaamError>,
        J: Fn(Tensor, Tensor) -> Result<Output<Tensor>, GigaamError>,

        requires
            networks_ready(mel, encode_ctc, encode_rnnt, decode, join_scores),
        ensures
            is_answer(
                self@.model,
                audio@,
                mel,
                encode_ctc,
                encode_rnnt,
                decode,
                join_scores,
                said(r),
            ),
    {
        answer(
            self.model.as_ref(),
            audio,
            mel,
            encode_ctc,
            encode_rnnt,
            decode,
            join_scores,
        )
    }

    /// Stops the download of a model, if there is one.
    pub fn cancel_download(&mut self, name: &str) -> (r: Result<(), String>)
        requires
            old(self)@.wf(),
        ensures
            final(self)@.wf(),
            r is Ok,
            final(self)@ == (EngineView { active: old(self)@.active.remove(name@), ..old(self)@ }),
    {
        self.active_downloads.remove(name);
        Ok(())
    }

    /// Gives the model of this name up, if it is the loaded one.
    pub fn unload(&mut self, name: &str)
        requires
            old(self)@.wf(),
        ensures
            final(self)@.wf(),
            final(self)@ == old(self)@.without(name@),
    {
        let is_current = match &self.current_model {
            Some(current) => same_text(current.as_str(), name),
            None => false,
        };
        if is_current {
            self.model = None;
            self.current_model = None;
        }
    }

    /// Deletes a model: it is unloaded, `removal` says what came of removing
    /// its directory, and the disk is looked at anew.
    pub fn delete_model(
        &mut self,
        name: &str,
        removal: Result<(), String>,
        disk: &Vec<Vec<Option<u64>>>,
    ) -> (r: Result<String, String>)
        requires
            old(self)@.wf(),
            covers_disk(disk_view(disk@)),
        ensures
            final(self)@.wf(),
            match removal {
                Ok(_) => {
                    &&& said(r) == Ok::<Seq<char>, Seq<char>>("Deleted GigaAM model "@ + name@)
                    &&& final(self)@ == old(self)@.without(name@).after_discovery(
                        disk_view(disk@),
                    )
                },
                Err(e) => {
                    &&& said(r) == Err::<Seq<char>, Seq<char>>(e@)
                    &&& final(self)@ == old(self)@.without(name@)
                },
            },
    {
        self.unload(name);
        match removal {
            Err(e) => Err(e),
            Ok(_) => match self.discover_models(disk) {
                Err(e) => Err(e),
                Ok(_) => Ok(join("Deleted GigaAM model ", name)),
            },
        }
    }

    /// Marks a model as being downloaded and starts its download. Only a known
    /// model can be downloaded.
    pub fn begin_download(&mut self, name: &str) -> (r: Result<Download, String>)
        requires
            old(self)@.wf(),
        ensures
            final(self)@.wf(),
            match r {
                Ok(d) => {
                    &&& known_model(name@) matches Some(m)
                    &&& d@ == download_of(m)
                    &&& d@.name == name@
                    &&& d@.wf()
                    &&& final(self)@ == (EngineView {
                        active: old(self)@.active.insert(name@),
                        ..old(self)@
                    })
                },
                Err(e) => {
                    &&& known_model(name@) is None
                    &&& e@ == unknown_model(name@)
                    &&& final(self)@ == old(self)@
                },
            },
    {
        match find_model(name) {
            None => Err(join("Unknown GigaAM model: ", name)),
            Some(m) => {
                proof {
                    let i = found_model_is_known(known_models(), name@);
                    lemma_total_sizes();
                    assert(m@ == ctc_spec() || m@ == rnnt_spec());
                }
                self.active_downloads.insert(name.to_owned());
                Ok(Download::new(m))
            },
        }
    }

    /// Ends the download of a model with what came of its files: whatever it
    /// is, the model is no longer being downloaded and the disk is looked at
    /// anew. For a name that is no model's nothing happens.
    pub fn download_model_detailed(
        &mut self,
        name: &str,
        result: Result<(), String>,
        disk: &Vec<Vec<Option<u64>>>,
    ) -> (r: Result<(), String>)
        requires
            old(self)@.wf(),
            covers_disk(disk_view(disk@)),
        ensures
            final(self)@.wf(),
            match known_model(name@) {
                Some(_) => {
                    &&& r == result
                    &&& final(self)@ == (EngineView {
                        active: old(self)@.active.remove(name@),
                        ..old(self)@
                    }).after_discovery(disk_view(disk@))
                },
                None => {
                    &&& unit_view(r) == Err::<(), Seq<char>>(unknown_model(name@))
                    &&& final(self)@ == old(self)@
                },
            },
    {
        match find_model(name) {
            None => Err(join("Unknown GigaAM model: ", name)),
            Some(_) => {
                self.active_downloads.remove(name);
                let _ = self.discover_models(disk);
                result
            },
        }
    }
}

/// What the engine says of a transcription.
pub open spec fn engine_words(t: Result<Seq<char>, GigaamErrorView>) -> Result<
    Seq<char>,
    Seq<char>,
> {
    match t {
        Ok(text) => Ok(text),
        Err(e) => Err("GigaAM transcription failed: "@ + error_text(e)),
    }
}

/// `r` can be what an engine with this model loaded, or none, says of a
/// recording.
pub open spec fn is_answer<M, C, E, D, J>(
    model: Option<GigaamModelView>,
    audio: Seq<u32>,
    mel: M,
    encode_ctc: C,
    encode_rnnt: E,
    decode: D,
    join_scores: J,
    r: Result<Seq<char>, Seq<char>>,
) -> bool where
    M: Fn(Vec<u32>) -> Vec<u32>,
    C: Fn(Tensor, i64) -> Result<Output<Tensor>, GigaamError>,
    E: Fn(Tensor, i64) -> Result<EncoderOutputs, GigaamError>,
    D: Fn(i64, Tensor, Tensor) -> Result<DecoderOutputs, GigaamError>,
    J: Fn(Tensor, Tensor) -> Result<Output<Tensor>, GigaamError>,
 {
    match model {
        None => r == Err::<Seq<char>, Seq<char>>("No GigaAM model loaded"@),
        Some(m) => exists|t: Result<Seq<char>, GigaamErrorView>|
            {
                &&& #[trigger] is_transcription(
                    m,
                    audio,
                    mel,
                    encode_ctc,
                    encode_rnnt,
                    decode,
                    join_scores,
                    t,
                )
                &&& r == engine_words(t)
            },
    }
}

/// A loaded model, if any, as values.
pub open spec fn model_in(model: Option<&GigaamModel>) -> Option<GigaamModelView> {
    match model {
        Some(m) => Some(m@),
        None => None,
    }
}

/// What an engine with this model loaded, or none, says of a recording.
pub fn answer<M, C, E, D, J>(
    model: Option<&GigaamModel>,
    audio: &[u32],
    mel: M,
    encode_ctc: C,
    encode_rnnt: E,
    decode: D,
    join_scores: J,
) -> (r: Result<String, String>) where
    M: Fn(Vec<u32>) -> Vec<u32>,
    C: Fn(Tensor, i64) -> Result<Output<Tensor>, GigaamError>,
    E: Fn(Tensor, i64) -> Result<EncoderOutputs, GigaamError>,
    D: Fn(i64, Tensor, Tensor) -> Result<DecoderOutputs, GigaamError>,
    J: Fn(Tensor, Tensor) -> Result<Output<Tensor>, GigaamError>,

    requires
        networks_ready(mel, encode_ctc, encode_rnnt, decode, join_scores),
    ensures
        is_answer(
            model_in(model),
            audio@,
            mel,
            encode_ctc,
            encode_rnnt,
            decode,
            join_scores,
            said(r),
        ),
{
    match model {
        None => Err("No GigaAM model loaded".to_owned()),
        Some(m) => {
            let t = m.transcribe_samples(
                audio,
                mel,
                encode_ctc,
                encode_rnnt,
                decode,
                join_scores,
            );
            let ghost tv = text_view(t);
            assert(is_transcription(
                m@,
                audio@,
                mel,
                encode_ctc,
                encode_rnnt,
                decode,
                join_scores,
                tv,
            ));
            match t {
                Ok(text) => Ok(text),
                Err(e) => Err(join("GigaAM transcription failed: ", e.message().as_str())),
            }
        },
    }
}

proof fn lemma_status_names(
    active: Set<Seq<char>>,
    disk: Seq<Seq<Option<u64>>>,
    k: nat,
    n: Seq<char>,
)
    requires
        k <= known_models().len(),
        status_map(active, disk, k).contains_key(n),
    ensures
        known_model(n) is Some,
    decreases k,
{
    if k > 0 {
        if n == known_models()[k - 1].name {
            models_are_found_by_name(k - 1);
        } else {
            lemma_status_names(active, disk, (k - 1) as nat, n);
        }
    }
}

/// A look at the disk gives every known model its status, and no other name
/// one.
pub proof fn every_model_has_a_status(
    active: Set<Seq<char>>,
    disk: Seq<Seq<Option<u64>>>,
    i: int,
    n: Seq<char>,
)
    requires
        0 <= i < known_models().len(),
    ensures
        statuses(active, disk).contains_key(known_models()[i].name),
        statuses(active, disk)[known_models()[i].name] == model_status(active, disk, i),
        statuses(active, disk).contains_key(n) ==> known_model(n) is Some,
{
    lemma_status_of(active, disk, known_models().len(), i);
    if statuses(active, disk).contains_key(n) {
        lemma_status_names(active, disk, known_models().len(), n);
    }
}

proof fn lemma_status_of(active: Set<Seq<char>>, disk: Seq<Seq<Option<u64>>>, k: nat, i: int)
    requires
        0 <= i < k <= known_models().len(),
    ensures
        status_map(active, disk, k).contains_key(known_models()[i].name),
        status_map(active, disk, k)[known_models()[i].name] == model_status(active, disk, i),
    decreases k,
{
    models_are_found_by_name(i);
    if i < k - 1 {
        assert(known_models()[i].name != known_models()[k - 1].name);
        lemma_status_of(active, disk, (k - 1) as nat, i);
    }
}

/// A model is available if and only if each of its files is on disk with a
/// plausible size; where none is there it is missing.
pub proof fn available_means_complete(files: Seq<ModelFileView>, sizes: Seq<Option<u64>>)
    requires
        files.len() == sizes.len(),
    ensures
        status_on_disk(files, sizes) == ModelStatus::Available <==> (forall|i: int|
            0 <= i < files.len() ==> plausible(#[trigger] files[i], sizes[i])),
        files.len() > 0 && (forall|i: int| 0 <= i < sizes.len() ==> (#[trigger] sizes[i]) is None)
            ==> status_on_disk(files, sizes) == ModelStatus::Missing,
        status_on_disk(files, sizes) != ModelStatus::Downloading,
{
    if files.len() > 0 && (forall|i: int| 0 <= i < sizes.len() ==> (#[trigger] sizes[i]) is None) {
        assert(sizes[0] is None);
        assert(!plausible(files[0], sizes[0]));
    }
}

/// A model can be loaded if and only if it is known and complete on disk, be it
/// downloaded anew meanwhile or not.
pub proof fn complete_models_load(name: Seq<char>, sizes: Seq<Option<u64>>)
    requires
        covers_model(name, sizes),
    ensures
        loadable(name, sizes) is Ok <==> (known_model(name) matches Some(m) && status_on_disk(
            m.files,
            sizes,
        ) == ModelStatus::Available),
{
}

/// While a model is being downloaded it is offered as such, whatever the disk
/// holds. Once the download has ended it is offered by what the disk holds.
pub proof fn downloads_show(
    active: Set<Seq<char>>,
    disk: Seq<Seq<Option<u64>>>,
    i: int,
)
    requires
        0 <= i < known_models().len(),
        covers_disk(disk),
    ensures
        ({
            let m = known_models()[i];
            &&& discovered(active.insert(m.name), disk)[i].status == ModelStatus::Downloading
            &&& discovered(active.remove(m.name), disk)[i].status == status_on_disk(
                m.files,
                disk[i],
            )
        }),
{
}

/// Cancelling a download, or its end, leaves the other downloads as they are.
pub proof fn downloads_are_independent<P>(s: EngineView<P>, name: Seq<char>, other: Seq<char>)
    requires
        name != other,
    ensures
        !s.active.remove(name).contains(name),
        s.active.remove(name).contains(other) == s.active.contains(other),
        s.active.insert(name).contains(other) == s.active.contains(other),
{
}

/// A deleted model is not loaded; any other stays.
pub proof fn deletion_unloads<P>(s: EngineView<P>, name: Seq<char>, other: Seq<char>)
    requires
        s.wf(),
        name != other,
    ensures
        s.without(name).wf(),
        s.without(name).current != Some(name),
        s.current == Some(other) ==> s.without(name) == s,
{
}

/// Looking at the disk twice is looking at it once, and does not touch what is
/// loaded or downloaded.
pub proof fn discovery_is_idempotent<P>(s: EngineView<P>, disk: Seq<Seq<Option<u64>>>)
    ensures
        s.after_discovery(disk).after_discovery(disk) == s.after_discovery(disk),
        s.after_discovery(disk).model == s.model,
        s.after_discovery(disk).current == s.current,
        s.after_discovery(disk).active == s.active,
{
}

/// The status of a model by the sizes of its files: available where each is
/// there with half its size or more, rounded down; missing where the first is
/// not there; corrupted where it is and some file is absent or shorter.
pub proof fn status_follows_from_sizes(files: Seq<ModelFileView>, sizes: Seq<Option<u64>>)
    requires
        files.len() == sizes.len(),
        files.len() > 0,
    ensures
        ({
            let complete = forall|i: int|
                0 <= i < files.len() ==> (#[trigger] sizes[i]) is Some && 2 * sizes[i]->0 + 1
                    >= files[i].size;
            &&& status_on_disk(files, sizes) == ModelStatus::Available <==> complete
            &&& status_on_disk(files, sizes) == ModelStatus::Missing <==> sizes[0] is None
            &&& status_on_disk(files, sizes) == ModelStatus::Corrupted <==> sizes[0] is Some
                && !complete
        }),
{
    assert forall|i: int| 0 <= i < files.len() implies (plausible(#[trigger] files[i], sizes[i])
        <==> sizes[i] is Some && 2 * sizes[i]->0 + 1 >= files[i].size) by {}
    if forall|i: int| 0 <= i < files.len() ==> plausible(#[trigger] files[i], sizes[i]) {
        assert(plausible(files[0], sizes[0]));
        assert forall|i: int| 0 <= i < files.len() implies (#[trigger] sizes[i]) is Some && 2
            * sizes[i]->0 + 1 >= files[i].size by {
            assert(plausible(files[i], sizes[i]));
        }
    } else {
        let i = choose|i: int|
            0 <= i < files.len() && !plausible(#[trigger] files[i], sizes[i]);
        assert(!(sizes[i] is Some && 2 * sizes[i]->0 + 1 >= files[i].size));
    }
}

/// Every known model is offered once, in order, under its own name, size and
/// description, as Russian.
pub proof fn offers_are_the_known_models(
    active: Set<Seq<char>>,
    disk: Seq<Seq<Option<u64>>>,
    i: int,
)
    requires
        0 <= i < known_models().len(),
    ensures
        ({
            let offer = discovered(active, disk)[i];
            let m = known_models()[i];
            &&& discovered(active, disk).len() == known_models().len()
            &&& offer.name == m.name
            &&& offer.size_mb == m.size_mb
            &&& offer.description == m.description
            &&& offer.language == "ru"@
            &&& active.contains(m.name) ==> offer.status == ModelStatus::Downloading
            &&& !active.contains(m.name) ==> offer.status == status_on_disk(m.files, disk[i])
        }),
{
}

/// What is loaded under a name is the model that was handed in, if the name is
/// known and its files are complete; nothing else is ever loaded.
pub proof fn loading_takes_the_model_handed_in(
    name: Seq<char>,
    sizes: Seq<Option<u64>>,
    model: GigaamModel,
    outcome: LoadOutcome,
)
    ensures
        loadable(name, sizes) matches Ok(m) ==> m.name == name && known_model(name) == Some(m),
        loadable(name, sizes) is Ok ==> load_result(name, sizes, LoadOutcome::Loaded(model)) == Ok::<
            GigaamModelView,
            Seq<char>,
        >(model@),
        load_result(name, sizes, outcome) is Ok ==> loadable(name, sizes) is Ok
            && outcome is Loaded,
{
    if known_model(name) is Some {
        let i = found_model_is_known(known_models(), name);
    }
}

/// Looking at the disk, deleting and unloading leave what they are not about:
/// the directory and the downloads stay, and so do the statuses where the disk
/// is not looked at.
pub proof fn operations_keep_the_rest<P>(
    s: EngineView<P>,
    name: Seq<char>,
    disk: Seq<Seq<Option<u64>>>,
)
    ensures
        s.without(name).base == s.base,
        s.without(name).active == s.active,
        s.without(name).available == s.available,
        s.current == Some(name) ==> s.without(name).model is None && s.without(name).current is None,
        s.current != Some(name) ==> s.without(name) == s,
        s.after_discovery(disk).base == s.base,
        s.after_discovery(disk).available == statuses(s.active, disk),
{
}

/// The words for an unknown name end with the whole name, and those of a failed
/// transcription with the whole of its reason; a text is handed on as it is.
pub proof fn words_hold_name_and_reason(name: Seq<char>, text: Seq<char>, e: GigaamErrorView)
    ensures
        unknown_model(name) == unknown_model(Seq::empty()) + name,
        engine_words(Ok(text)) == Ok::<Seq<char>, Seq<char>>(text),
        engine_words(Err(e)) matches Err(words) && words.len() >= error_text(e).len()
            && words.skip(words.len() - error_text(e).len()) == error_text(e),
{
    assert(unknown_model(name) =~= unknown_model(Seq::empty()) + name);
    let words = engine_words(Err(e))->Err_0;
    assert(words.skip(words.len() - error_text(e).len()) =~= error_text(e));
}

/// Texts, offers and sizes stand for themselves.
pub proof fn answers_stand_for_themselves(
    text: String,
    info: ModelInfo,
    infos: Seq<ModelInfo>,
    disk: Seq<Vec<Option<u64>>>,
    i: int,
)
    ensures
        opt_text(Some(text)) == Some(text@),
        opt_text(None) is None,
        unit_view(Ok(())) is Ok,
        unit_view(Err(text)) == Err::<(), Seq<char>>(text@),
        said(Ok(text)) == Ok::<Seq<char>, Seq<char>>(text@),
        said(Err(text)) == Err::<Seq<char>, Seq<char>>(text@),
        info@.name == info.name@ && info@.description == info.description@ && info@.language
            == info.language@ && info@.size_mb == info.size_mb && info@.status == info.status,
        info_views(infos).len() == infos.len(),
        0 <= i < infos.len() ==> info_views(infos)[i] == infos[i]@,
        disk_view(disk).len() == disk.len(),
        0 <= i < disk.len() ==> disk_view(disk)[i] == disk[i]@,
{
}

/// Where the bands and the networks are functions, the engine's answer is what
/// the loaded model makes of the recording, and a refusal where none is loaded.
pub proof fn answer_is_determined<M, C, E, D, J>(
    model: Option<GigaamModelView>,
    audio: Seq<u32>,
    mel: M,
    encode_ctc: C,
    encode_rnnt: E,
    decode: D,
    join_scores: J,
    r: Result<Seq<char>, Seq<char>>,
    mel_fn: MelFn,
    ctc_fn: CtcFn,
    rnnt_fn: EncoderFn,
    decoder_fn: DecoderFn,
    joiner_fn: JoinerFn,
) where
    M: Fn(Vec<u32>) -> Vec<u32>,
    C: Fn(Tensor, i64) -> Result<Output<Tensor>, GigaamError>,
    E: Fn(Tensor, i64) -> Result<EncoderOutputs, GigaamError>,
    D: Fn(i64, Tensor, Tensor) -> Result<DecoderOutputs, GigaamError>,
    J: Fn(Tensor, Tensor) -> Result<Output<Tensor>, GigaamError>,

    requires
        bands_as(mel, mel_fn),
        scores_as(encode_ctc, ctc_fn),
        encodes_as(encode_rnnt, rnnt_fn),
        decodes_as(decode, decoder_fn),
        joins_as(join_scores, joiner_fn),
        is_answer(model, audio, mel, encode_ctc, encode_rnnt, decode, join_scores, r),
    ensures
        match model {
            None => r == Err::<Seq<char>, Seq<char>>("No GigaAM model loaded"@),
            Some(m) => match transcript(
                m,
                audio,
                mel_fn,
                ctc_fn,
                rnnt_fn,
                decoder_fn,
                joiner_fn,
            ) {
                Ok(text) => r == Ok::<Seq<char>, Seq<char>>(text),
                Err(e) => r == Err::<Seq<char>, Seq<char>>(
                    "GigaAM transcription failed: "@ + error_text(e),
                ),
            },
        },
{
    if let Some(m) = model {
        let t = choose|t: Result<Seq<char>, GigaamErrorView>|
            {
                &&& #[trigger] is_transcription(
                    m,
                    audio,
                    mel,
                    encode_ctc,
                    encode_rnnt,
                    decode,
                    join_scores,
                    t,
                )
                &&& r == engine_words(t)
            };
        transcription_is_determined(
            m,
            audio,
            mel,
            encode_ctc,
            encode_rnnt,
            decode,
            join_scores,
            t,
            mel_fn,
            ctc_fn,
            rnnt_fn,
            decoder_fn,
            joiner_fn,
        );
    }
}

/// A model that could not be loaded is answered with the whole of the reason,
/// behind words that are the same for every reason; one that cannot be loaded
/// at all is answered with that, whatever came of loading it.
pub proof fn failed_loading_tells_the_reason(
    name: Seq<char>,
    sizes: Seq<Option<u64>>,
    words: String,
    e: GigaamError,
    outcome: LoadOutcome,
)
    ensures
        loadable(name, sizes) is Ok ==> load_result(name, sizes, LoadOutcome::Interrupted(words))
            == Err::<GigaamModelView, Seq<char>>("load task join error: "@ + words@),
        loadable(name, sizes) is Ok ==> load_result(name, sizes, LoadOutcome::Failed(e)) == Err::<
            GigaamModelView,
            Seq<char>,
        >("Failed to load GigaAM model: "@ + error_text(e@)),
        loadable(name, sizes) matches Err(why) ==> load_result(name, sizes, outcome) == Err::<
            GigaamModelView,
            Seq<char>,
        >(why),
        known_model(name) is None ==> loadable(name, sizes) == Err::<ModelSpecView, Seq<char>>(
            "Unknown GigaAM model: "@ + name,
        ),
{
}

} // verus!
