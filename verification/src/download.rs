//! The download of a model: file after file, chunk after chunk, until it is
//! cancelled.
//!
//! A `Download` says what is done next and takes what came of it. Once it is
//! over it stays so: nothing is fetched, written or reported any more.
use vstd::prelude::*;

use crate::engine::{unit_view, GigaamEngine};
use crate::registry::{file_views, total_size, ModelFile, ModelFileView, ModelSpec, ModelSpecView};
use crate::text::join3;

verus! {

/// Where the files come from.
pub const HF_BASE: &'static str = "https://huggingface.co/istupakov/gigaam-v3-onnx/resolve/main";

/// How far a download is.
#[derive(Debug, Clone, Copy, PartialEq, Eq, Structural)]
pub struct DownloadProgress {
    pub percent: u32,
    pub downloaded_bytes: u64,
    pub total_bytes: u64,
}

/// The source of one file, and where it goes under the directory of its model.
#[derive(Debug)]
pub struct FileTransfer {
    pub url: String,
    pub local: String,
}

/// What is done next.
#[derive(Debug)]
pub enum DownloadStep {
    /// Create the model's directory.
    Prepare,
    /// Ask for a file and create it on disk.
    Fetch(FileTransfer),
    /// Wait for the file's next chunk, or its end.
    Read,
    /// Write the chunk, of this length.
    Write(usize),
    /// Tell how far the download is.
    Report,
    /// Bring the file to its end.
    Flush,
    /// Nothing: the download has ended, with this result.
    Over(Result<(), String>),
}

enum Stage {
    Prepare,
    Fetch,
    Read,
    Write(usize),
    Report,
    Flush,
    Over(Result<(), String>),
}

/// Where a download stands.
pub enum StageView {
    Prepare,
    Fetch,
    Read,
    Write(usize),
    Report,
    Flush,
    Over(Result<(), Seq<char>>),
}

impl View for Stage {
    type V = StageView;

    closed spec fn view(&self) -> StageView {
        match self {
            Stage::Prepare => StageView::Prepare,
            Stage::Fetch => StageView::Fetch,
            Stage::Read => StageView::Read,
            Stage::Write(len) => StageView::Write(*len),
            Stage::Report => StageView::Report,
            Stage::Flush => StageView::Flush,
            Stage::Over(result) => StageView::Over(unit_view(*result)),
        }
    }
}

/// A download under way.
pub struct Download {
    name: &'static str,
    files: Vec<ModelFile>,
    next: usize,
    done_bytes: u64,
    total_bytes: u64,
    stage: Stage,
}

/// A download's model, its files, and how far it is.
#[verifier::ext_equal]
pub struct DownloadView {
    pub name: Seq<char>,
    pub files: Seq<ModelFileView>,
    /// How many files are complete.
    pub next: nat,
    pub done: u64,
    pub total: u64,
    pub stage: StageView,
}

impl View for Download {
    type V = DownloadView;

    closed spec fn view(&self) -> DownloadView {
        DownloadView {
            name: self.name@,
            files: file_views(self.files@),
            next: self.next as nat,
            done: self.done_bytes,
            total: self.total_bytes,
            stage: self.stage@,
        }
    }
}

/// A length or the words of a failure, or nothing at the end of a file.
pub open spec fn chunk_view(chunk: Option<Result<usize, String>>) -> Option<
    Result<usize, Seq<char>>,
> {
    match chunk {
        Some(Ok(n)) => Some(Ok(n)),
        Some(Err(e)) => Some(Err(e@)),
        None => None,
    }
}

/// What a chunk amounts to while `active` are being downloaded.
pub open spec fn received(
    active: Set<Seq<char>>,
    name: Seq<char>,
    chunk: Result<usize, Seq<char>>,
) -> Result<usize, Seq<char>> {
    if active.contains(name) {
        chunk
    } else {
        Err("Download cancelled"@)
    }
}

impl DownloadView {
    /// What every operation keeps: there is a file at hand unless the download
    /// is over or not begun, and a download that succeeded has every file.
    pub open spec fn wf(self) -> bool {
        &&& self.next <= self.files.len()
        &&& self.total == total_size(self.files)
        &&& match self.stage {
            StageView::Prepare => true,
            StageView::Over(result) => result is Ok ==> self.next == self.files.len(),
            _ => self.next < self.files.len(),
        }
    }

    /// The download before its next file, or over where none is left.
    pub open spec fn at_next_file(self) -> DownloadView {
        let stage = if self.next < self.files.len() {
            StageView::Fetch
        } else {
            StageView::Over(Ok(()))
        };
        DownloadView { stage, ..self }
    }

    /// The download once its step has been done or has failed. A failure ends
    /// it. A chunk is not waited for in this way.
    pub open spec fn after(self, outcome: Result<(), Seq<char>>) -> DownloadView {
        match (self.stage, outcome) {
            (StageView::Read, _) => self,
            (StageView::Over(_), _) => self,
            (_, Err(e)) => DownloadView { stage: StageView::Over(Err(e)), ..self },
            (StageView::Prepare, Ok(_)) => self.at_next_file(),
            (StageView::Fetch, Ok(_)) => DownloadView { stage: StageView::Read, ..self },
            (StageView::Write(len), Ok(_)) => DownloadView {
                done: (self.done + len) as u64,
                stage: StageView::Report,
                ..self
            },
            (StageView::Report, Ok(_)) => DownloadView { stage: StageView::Read, ..self },
            (StageView::Flush, Ok(_)) => (DownloadView {
                next: self.next + 1,
                ..self
            }).at_next_file(),
        }
    }

    /// The download once a chunk, or the end of the file, has arrived while
    /// `active` are being downloaded.
    pub open spec fn after_chunk(
        self,
        active: Set<Seq<char>>,
        chunk: Option<Result<usize, Seq<char>>>,
    ) -> DownloadView {
        match (self.stage, chunk) {
            (StageView::Read, None) => DownloadView { stage: StageView::Flush, ..self },
            (StageView::Read, Some(c)) => match received(active, self.name, c) {
                Ok(len) => DownloadView { stage: StageView::Write(len), ..self },
                Err(e) => DownloadView { stage: StageView::Over(Err(e)), ..self },
            },
            _ => self,
        }
    }

    /// The download once `event` has happened.
    pub open spec fn after_event(self, event: DownloadEvent) -> DownloadView {
        match event {
            DownloadEvent::Outcome(outcome) => self.after(outcome),
            DownloadEvent::Chunk(active, chunk) => self.after_chunk(active, chunk),
        }
    }

    /// The download once all of `events` have happened, in order.
    pub open spec fn after_events(self, events: Seq<DownloadEvent>) -> DownloadView
        decreases events.len(),
    {
        if events.len() == 0 {
            self
        } else {
            self.after_event(events.first()).after_events(events.drop_first())
        }
    }

    /// The files that are asked for with success while `events` happen, in
    /// order.
    pub open spec fn fetched(self, events: Seq<DownloadEvent>) -> Seq<ModelFileView>
        decreases events.len(),
    {
        if events.len() == 0 {
            Seq::empty()
        } else {
            let rest = self.after_event(events.first()).fetched(events.drop_first());
            match (self.stage, events.first()) {
                (StageView::Fetch, DownloadEvent::Outcome(Ok(_))) => seq![
                    self.files[self.next as int],
                ] + rest,
                _ => rest,
            }
        }
    }
}

/// What can happen to a download: the outcome of its step, or a chunk or the
/// end of a file, while these are being downloaded.
pub enum DownloadEvent {
    Outcome(Result<(), Seq<char>>),
    Chunk(Set<Seq<char>>, Option<Result<usize, Seq<char>>>),
}

/// The download of a model before its first step.
pub open spec fn download_of(model: ModelSpecView) -> DownloadView {
    DownloadView {
        name: model.name,
        files: model.files,
        next: 0,
        done: 0,
        total: total_size(model.files) as u64,
        stage: StageView::Prepare,
    }
}

/// The source of a file.
pub open spec fn file_url(remote: Seq<char>) -> Seq<char> {
    HF_BASE@ + "/"@ + remote
}

/// `step` is what a download does next.
pub open spec fn is_step(d: DownloadView, step: DownloadStep) -> bool {
    match (d.stage, step) {
        (StageView::Prepare, DownloadStep::Prepare) => true,
        (StageView::Fetch, DownloadStep::Fetch(f)) => {
            &&& f.url@ == file_url(d.files[d.next as int].remote)
            &&& f.local@ == d.files[d.next as int].local
        },
        (StageView::Read, DownloadStep::Read) => true,
        (StageView::Write(n), DownloadStep::Write(len)) => n == len,
        (StageView::Report, DownloadStep::Report) => true,
        (StageView::Flush, DownloadStep::Flush) => true,
        (StageView::Over(result), DownloadStep::Over(r)) => result == unit_view(r),
        _ => false,
    }
}

/// A download that is over stays as it is, whatever happens: no file is asked
/// for, no chunk written, no progress told.
pub proof fn over_is_final(d: DownloadView, events: Seq<DownloadEvent>)
    requires
        d.stage is Over,
    ensures
        d.after_events(events) == d,
        d.fetched(events) == Seq::<ModelFileView>::empty(),
    decreases events.len(),
{
    if events.len() > 0 {
        over_is_final(d, events.drop_first());
    }
}

/// A chunk that arrives once the download is cancelled ends it, whatever the
/// chunk holds. The chunk is not counted, and nothing follows.
pub proof fn cancelled_download_ends(
    d: DownloadView,
    active: Set<Seq<char>>,
    chunk: Result<usize, Seq<char>>,
    events: Seq<DownloadEvent>,
)
    requires
        d.stage is Read,
        !active.contains(d.name),
    ensures
        ({
            let ended = d.after_chunk(active, Some(chunk));
            &&& ended.stage == StageView::Over(Err("Download cancelled"@))
            &&& ended.done == d.done && ended.next == d.next
            &&& ended.after_events(events) == ended
            &&& ended.fetched(events) == Seq::<ModelFileView>::empty()
        }),
{
    over_is_final(d.after_chunk(active, Some(chunk)), events);
}

/// A download is cancelled by its own name only.
pub proof fn other_downloads_go_on(
    d: DownloadView,
    active: Set<Seq<char>>,
    other: Seq<char>,
    chunk: Option<Result<usize, Seq<char>>>,
)
    requires
        d.name != other,
    ensures
        d.after_chunk(active.remove(other), chunk) == d.after_chunk(active, chunk),
        d.after_chunk(active.insert(other), chunk) == d.after_chunk(active, chunk),
{
}

/// Progress is told, and bytes are counted, for a chunk that was written and
/// for nothing else.
pub proof fn only_written_chunks_count(d: DownloadView, event: DownloadEvent)
    requires
        d.after_event(event).done != d.done || (d.after_event(event).stage is Report
            && !(d.stage is Report)),
    ensures
        d.stage is Write,
        event matches DownloadEvent::Outcome(outcome) && outcome is Ok,
{
}

/// A chunk is written only if it arrived whole while the download was wanted.
pub proof fn only_wanted_chunks_are_written(d: DownloadView, event: DownloadEvent)
    requires
        d.after_event(event).stage is Write,
        !(d.stage is Write),
    ensures
        match event {
            DownloadEvent::Chunk(active, Some(Ok(len))) => {
                &&& active.contains(d.name)
                &&& d.after_event(event).stage == StageView::Write(len)
            },
            _ => false,
        },
{
}

/// The file that is asked for next, by its index.
spec fn cursor(d: DownloadView) -> int {
    match d.stage {
        StageView::Prepare | StageView::Fetch | StageView::Over(_) => d.next as int,
        _ => d.next as int + 1,
    }
}

proof fn lemma_fetched(d: DownloadView, events: Seq<DownloadEvent>)
    requires
        d.wf(),
    ensures
        ({
            let got = d.fetched(events);
            &&& cursor(d) + got.len() <= d.files.len()
            &&& got == d.files.subrange(cursor(d), cursor(d) + got.len())
            &&& d.after_events(events).stage == StageView::Over(Ok(())) ==> cursor(d) + got.len()
                == d.files.len()
        }),
    decreases events.len(),
{
    let got = d.fetched(events);
    if events.len() > 0 {
        let next = d.after_event(events.first());
        lemma_fetched(next, events.drop_first());
        if next.stage is Over {
            over_is_final(next, events.drop_first());
        }
    }
    assert(got =~= d.files.subrange(cursor(d), cursor(d) + got.len()));
}

/// A download asks for the files of its model in order, each once, and succeeds
/// only with all of them.
pub proof fn every_file_is_fetched(model: ModelSpecView, events: Seq<DownloadEvent>)
    requires
        total_size(model.files) <= u64::MAX,
    ensures
        ({
            let d = download_of(model);
            &&& d.fetched(events).is_prefix_of(model.files)
            &&& d.after_events(events).stage == StageView::Over(Ok(())) ==> d.fetched(events)
                == model.files
        }),
{
    let got = download_of(model).fetched(events);
    lemma_fetched(download_of(model), events);
    assert(got =~= model.files.take(got.len() as int));
}

proof fn lemma_total_grows(files: Seq<ModelFileView>, k: int)
    requires
        0 <= k <= files.len(),
    ensures
        total_size(files.take(k)) <= total_size(files),
    decreases files.len() - k,
{
    if k < files.len() {
        lemma_total_grows(files, k + 1);
        assert(files.take(k + 1).drop_last() =~= files.take(k));
    } else {
        assert(files.take(k) =~= files);
    }
}

impl Download {
    /// The download of a model before its first step.
    pub fn new(model: ModelSpec) -> (r: Download)
        requires
            total_size(model@.files) <= u64::MAX,
        ensures
            r@.wf(),
            r@ == download_of(model@),
    {
        let ghost views = model@.files;
        let mut total: u64 = 0;
        let mut i: usize = 0;
        assert(views.take(0) =~= Seq::<ModelFileView>::empty());
        while i < model.files.len()
            invariant
                views == file_views(model.files@),
                total_size(views) <= u64::MAX,
                i <= model.files.len(),
                total == total_size(views.take(i as int)),
            decreases model.files.len() - i,
        {
            proof {
                assert(views.take(i + 1).drop_last() =~= views.take(i as int));
                assert(views[i as int] == model.files@[i as int]@);
                lemma_total_grows(views, i + 1);
            }
            total = total + model.files[i].size;
            i = i + 1;
        }
        assert(views.take(i as int) =~= views);
        Download {
            name: model.name,
            files: model.files,
            next: 0,
            done_bytes: 0,
            total_bytes: total,
            stage: Stage::Prepare,
        }
    }

    /// Says what is done next.
    pub fn next(&self) -> (r: DownloadStep)
        requires
            self@.wf(),
        ensures
            is_step(self@, r),
    {
        match &self.stage {
            Stage::Prepare => DownloadStep::Prepare,
            Stage::Fetch => {
                let file: ModelFile = self.files[self.next];
                assert(self@.files[self.next as int] == file@);
                DownloadStep::Fetch(
                    FileTransfer {
                        url: join3(HF_BASE, "/", file.remote),
                        local: file.local.to_owned(),
                    },
                )
            },
            Stage::Read => DownloadStep::Read,
            Stage::Write(len) => DownloadStep::Write(*len),
            Stage::Report => DownloadStep::Report,
            Stage::Flush => DownloadStep::Flush,
            Stage::Over(Ok(_)) => DownloadStep::Over(Ok(())),
            Stage::Over(Err(e)) => DownloadStep::Over(Err(e.clone())),
        }
    }

    fn go_to_next_file(&mut self)
        ensures
            final(self)@ == old(self)@.at_next_file(),
    {
        if self.next < self.files.len() {
            self.stage = Stage::Fetch;
        } else {
            self.stage = Stage::Over(Ok(()));
        }
    }

    /// Takes what came of the step, unless it is to wait for a chunk.
    pub fn accept(&mut self, outcome: Result<(), String>)
        requires
            old(self)@.wf(),
            match (old(self)@.stage, outcome) {
                (StageView::Write(len), Ok(_)) => old(self)@.done + len <= u64::MAX,
                _ => true,
            },
        ensures
            final(self)@.wf(),
            final(self)@ == old(self)@.after(unit_view(outcome)),
    {
        assert(self@.files.len() == self.files@.len());
        match &self.stage {
            Stage::Read | Stage::Over(_) => {
                return;
            },
            _ => {},
        }
        match outcome {
            Err(e) => {
                self.stage = Stage::Over(Err(e));
            },
            Ok(_) => match &self.stage {
                Stage::Prepare => self.go_to_next_file(),
                Stage::Fetch => {
                    self.stage = Stage::Read;
                },
                Stage::Write(len) => {
                    self.done_bytes = self.done_bytes + *len as u64;
                    self.stage = Stage::Report;
                },
                Stage::Report => {
                    self.stage = Stage::Read;
                },
                Stage::Flush => {
                    assert(self.next < self.files.len());
                    self.next = self.next + 1;
                    self.go_to_next_file();
                },
                _ => {},
            },
        }
    }

    /// Takes a chunk that was waited for, by its length or the words of a
    /// failure, or the end of the file. A download that is no longer wanted
    /// ends with the chunk.
    pub fn receive<P>(
        &mut self,
        engine: &GigaamEngine<P>,
        chunk: Option<Result<usize, String>>,
    )
        requires
            old(self)@.wf(),
        ensures
            final(self)@.wf(),
            final(self)@ == old(self)@.after_chunk(engine@.active, chunk_view(chunk)),
    {
        match &self.stage {
            Stage::Read => {},
            _ => {
                return;
            },
        }
        match chunk {
            None => {
                self.stage = Stage::Flush;
            },
            Some(c) => {
                if !engine.is_downloading(self.name) {
                    self.stage = Stage::Over(Err("Download cancelled".to_owned()));
                    return;
                }
                match c {
                    Ok(len) => {
                        self.stage = Stage::Write(len);
                    },
                    Err(e) => {
                        self.stage = Stage::Over(Err(e));
                    },
                }
            },
        }
    }

    /// The bytes on disk and the bytes in all.
    pub fn bytes(&self) -> (r: (u64, u64))
        ensures
            r.0 == self@.done,
            r.1 == self@.total,
    {
        (self.done_bytes, self.total_bytes)
    }

    /// How far the download is, with the share of it in percent.
    pub fn progress(&self, percent: u32) -> (r: DownloadProgress)
        ensures
            r == (DownloadProgress {
                percent,
                downloaded_bytes: self@.done,
                total_bytes: self@.total,
            }),
    {
        DownloadProgress {
            percent,
            downloaded_bytes: self.done_bytes,
            total_bytes: self.total_bytes,
        }
    }
}

/// A chunk that was written is counted with its whole length.
pub proof fn written_chunks_are_counted(d: DownloadView, len: usize)
    requires
        d.stage == StageView::Write(len),
        d.done + len <= u64::MAX,
    ensures
        d.after(Ok(())).done == d.done + len,
        d.after(Ok(())).stage is Report,
        d.after(Ok(())).after(Ok(())).stage is Read,
        d.after(Ok(())).after(Ok(())).done == d.done + len,
{
}

/// A chunk that arrives while the download is wanted is written, whole; a file
/// that has come to its end is brought to its end on disk.
pub proof fn wanted_chunks_are_written(d: DownloadView, active: Set<Seq<char>>, len: usize)
    requires
        d.stage is Read,
        active.contains(d.name),
    ensures
        d.after_chunk(active, Some(Ok(len))).stage == StageView::Write(len),
        d.after_chunk(active, None).stage is Flush,
{
}

/// A failure ends the download, with its own words, whichever step it is of.
pub proof fn failures_end_the_download(
    d: DownloadView,
    active: Set<Seq<char>>,
    e: Seq<char>,
)
    ensures
        !(d.stage is Read) && !(d.stage is Over) ==> d.after(Err(e)).stage == StageView::Over(
            Err(e),
        ),
        d.stage is Read && active.contains(d.name) ==> d.after_chunk(active, Some(Err(e))).stage
            == StageView::Over(Err(e)),
{
}

/// Files become complete one by one, each when it is brought to its end; a
/// download keeps its name, its files and their size.
pub proof fn files_complete_one_by_one(d: DownloadView, event: DownloadEvent)
    ensures
        ({
            let next = d.after_event(event);
            &&& next.name == d.name && next.files == d.files && next.total == d.total
            &&& next.next == d.next || next.next == d.next + 1
            &&& next.next == d.next + 1 <==> d.stage is Flush && (event matches DownloadEvent::Outcome(
                outcome,
            ) && outcome is Ok)
            &&& next.next == d.next + 1 && next.next < d.files.len() ==> next.stage is Fetch
            &&& next.next == d.next + 1 && next.next >= d.files.len() ==> next.stage
                == StageView::Over(Ok(()))
        }),
{
}

/// The step of a file names the file that is then fetched: its name on disk as
/// it stands, and its source by its whole name there.
pub proof fn steps_name_the_file_fetched(d: DownloadView, step: DownloadStep)
    requires
        d.stage is Fetch,
        is_step(d, step),
    ensures
        ({
            let file = d.fetched(seq![DownloadEvent::Outcome(Ok(()))])[0];
            &&& file == d.files[d.next as int]
            &&& step matches DownloadStep::Fetch(f)
            &&& f.local@ == file.local
            &&& f.url@.len() == HF_BASE@.len() + 1 + file.remote.len()
            &&& f.url@.take(HF_BASE@.len() as int) == HF_BASE@
            &&& f.url@[HF_BASE@.len() as int] == '/'
            &&& f.url@.skip(HF_BASE@.len() as int + 1) == file.remote
        }),
{
    reveal_strlit("/");
    reveal_with_fuel(DownloadView::fetched, 2);
    let url = file_url(d.files[d.next as int].remote);
    assert(url.take(HF_BASE@.len() as int) =~= HF_BASE@);
    assert(url.skip(HF_BASE@.len() as int + 1) =~= d.files[d.next as int].remote);
}

/// A download goes to its first file once it is prepared, and reads a file once
/// it is asked for.
pub proof fn files_are_read_once_fetched(d: DownloadView)
    ensures
        d.stage is Prepare && d.next < d.files.len() ==> d.after(Ok(())).stage is Fetch,
        d.stage is Prepare && d.next >= d.files.len() ==> d.after(Ok(())).stage == StageView::Over(
            Ok(()),
        ),
        d.stage is Fetch ==> d.after(Ok(())).stage is Read,
        d.stage is Prepare || d.stage is Fetch ==> d.after(Ok(())).next == d.next,
{
}

/// The step is that of the stage: a chunk is written with its own length, and
/// the result told is the one that the download ended with.
pub proof fn steps_are_those_of_the_stage(
    d: DownloadView,
    step: DownloadStep,
    chunk: Result<usize, String>,
)
    requires
        is_step(d, step),
    ensures
        step matches DownloadStep::Write(len) ==> d.stage == StageView::Write(len),
        d.stage is Write <==> step is Write,
        d.stage is Prepare <==> step is Prepare,
        d.stage is Fetch <==> step is Fetch,
        d.stage is Read <==> step is Read,
        d.stage is Report <==> step is Report,
        d.stage is Flush <==> step is Flush,
        d.stage is Over <==> step is Over,
        step matches DownloadStep::Over(Ok(_)) ==> d.stage->Over_0 is Ok,
        step matches DownloadStep::Over(Err(e)) ==> d.stage == StageView::Over(Err(e@)),
        chunk_view(None) is None,
        chunk matches Ok(n) ==> chunk_view(Some(chunk)) == Some(Ok::<usize, Seq<char>>(n)),
        chunk matches Err(e) ==> chunk_view(Some(chunk)) == Some(Err::<usize, Seq<char>>(e@)),
{
}

} // verus!
