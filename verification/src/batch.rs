//! A compression run as the interface sees it: the jobs handed to the
//! worker, the events the worker sends for each file, and how the
//! interface takes those events in.
use vstd::prelude::*;
use crate::compression::{
    base_output_path, choose_encoder, encode_pixels, encoder_for, encoding_fails, encoded_as, layout_for, layout_of,
    output_base_path, process_picture, processed_origin, resolve_target_format, CompressError, Encoded,
    compressing_message, converting_message, failures, stage_text, successes, total_saving, BatchTally, CompressionEvent,
    FileResult,
};
use crate::human::{bytes_to_human, human_bytes};
use crate::models::{copy_opt_string, lower_extension, ImageFile, ImageSettings, OutputFormat};
use crate::picture::{image_decodes, picture_dims, picture_pixels, Picture, Resampling};
use crate::navigation::FocusedColumn;
use crate::paths::{extension_of, joined_path, path_extension, path_join, path_key_of, paths_equal};
use crate::state::{lemma_queued_indices_below, model_wf, queued_indices, App, AppModel, CompressionResult, Effect};
use crate::text::{decimal, push_all, push_decimal, to_lowercase, utf8_len};

verus! {

/// One file of a compression run, as handed to the worker.
#[derive(Debug)]
pub struct CompressionJob {
    pub file_index: usize,
    pub output_path: String,
    pub source_path: String,
    pub name: String,
    pub settings: ImageSettings,
    pub original_size: u64,
}

/// Where a file is written: into its own output directory, else into the
/// batch output directory, else over its own path.
pub open spec fn job_output_path(f: ImageFile, global_dir: Option<Seq<char>>) -> Seq<char> {
    match f.settings.output_directory {
        Some(d) => joined_path(d@, f.name@),
        None => match global_dir {
            Some(g) => joined_path(g, f.name@),
            None => f.path@,
        },
    }
}

/// `job` is the job for file `i` of the list.
pub open spec fn job_for(job: CompressionJob, files: Seq<ImageFile>, i: usize, global_dir: Option<Seq<char>>) -> bool {
    let f = files[i as int];
    &&& job.file_index == i
    &&& job.output_path@ == job_output_path(f, global_dir)
    &&& job.source_path@ == f.path@
    &&& job.name@ == f.name@
    &&& job.settings == f.settings
    &&& job.original_size == f.size
}

/// The model once a run has started: the interface is busy and shows the
/// start of the progress.
pub open spec fn run_started(m: AppModel) -> AppModel {
    AppModel { compressing: true, progress: Some((0, m.queue.len() as usize, 0u8, "Starting..."@)), ..m }
}

impl App {
    /// Starts compressing the queue, unless it is empty or a run is under
    /// way: the interface becomes busy and the jobs for the queued files are
    /// returned in queue order (empty when nothing starts).
    pub fn compress_queue(&mut self) -> (jobs: Vec<CompressionJob>)
        requires
            old(self).wf(),
        ensures
            final(self).wf(),
            old(self).queue@.len() == 0 || old(self).compressing ==> final(self).model() == old(
                self,
            ).model() && jobs@.len() == 0,
            !(old(self).queue@.len() == 0 || old(self).compressing) ==> final(self).model() == run_started(
                old(self).model(),
            ) && jobs@.len() == old(self).queue@.len() && forall|k: int|
                0 <= k < jobs@.len() ==> job_for(
                    #[trigger] jobs@[k],
                    old(self).files@,
                    old(self).queue@[k],
                    old(self).model().global_output_directory,
                ),
    {
        let ghost m = old(self).model();
        let mut jobs: Vec<CompressionJob> = Vec::new();
        if self.queue.len() == 0 || self.compressing {
            return jobs;
        }
        let total = self.queue.len();
        let mut k: usize = 0;
        while k < total
            invariant
                k <= total,
                total == self.queue@.len(),
                self.wf(),
                self.model() == m,
                jobs@.len() == k,
                forall|j: int|
                    0 <= j < k ==> job_for(
                        #[trigger] jobs@[j],
                        self.files@,
                        self.queue@[j],
                        m.global_output_directory,
                    ),
            decreases total - k,
        {
            let idx = self.queue[k];
            proof {
                assert(self.model().queue[k as int] == idx);
            }
            let f = &self.files[idx];
            let output_path = match &f.settings.output_directory {
                Some(d) => path_join(d, &f.name),
                None => match &self.global_output_directory {
                    Some(g) => path_join(g, &f.name),
                    None => f.path.clone(),
                },
            };
            jobs.push(
                CompressionJob {
                    file_index: idx,
                    output_path,
                    source_path: f.path.clone(),
                    name: f.name.clone(),
                    settings: f.settings.copied(),
                    original_size: f.size,
                },
            );
            k = k + 1;
        }
        self.compressing = true;
        self.progress = Some((0, total, 0, "Starting...".to_string()));
        proof {
            assert(self.model() =~= run_started(m));
        }
        jobs
    }
}

/// What the worker reports after compressing a file: the new size and the
/// name written, or the error's message.
pub type JobOutcome = Result<(u64, String), String>;

/// The result recorded for a job and its outcome.
pub open spec fn job_result(r: FileResult, job: CompressionJob, outcome: JobOutcome) -> bool {
    &&& r.file_index == job.file_index
    &&& r.source_name@ == job.name@
    &&& r.original_size == job.original_size
    &&& match outcome {
        Ok((new_size, written)) => r.new_size == new_size && r.output_filename == Some(written)
            && r.error is None,
        Err(msg) => r.new_size == job.original_size && r.output_filename is None && r.error == Some(msg),
    }
}

/// The events the worker sends after job `i` (counting from 0) of `total`
/// was attempted: for a written file the stage message, the progress and
/// the result; for a failure the result alone.
pub open spec fn outcome_events(
    events: Seq<CompressionEvent>,
    i: usize,
    total: usize,
    job: CompressionJob,
    outcome: JobOutcome,
    r: FileResult,
) -> bool {
    match outcome {
        Ok(_) => {
            &&& events.len() == 3
            &&& events[0] matches CompressionEvent::Stage(s) && s@ == stage_text(
                "Compressing to "@,
                job.name@,
                utf8_len(job.name@),
            )
            &&& events[1] matches CompressionEvent::Progress { current, total: t, filename, sub_progress }
                && current == i + 1 && t == total && filename@ == job.name@ && sub_progress == 100
            &&& events[2] == CompressionEvent::FileCompleted(r)
        },
        Err(_) => events == seq![CompressionEvent::FileCompleted(r)],
    }
}

impl BatchTally {
    /// Records the outcome of job `i` of `total` and returns the events the
    /// worker sends for it.
    pub fn record_outcome(&mut self, i: usize, total: usize, job: &CompressionJob, outcome: JobOutcome) -> (events:
        Vec<CompressionEvent>)
        requires
            old(self).wf(),
            i < usize::MAX,
            match outcome {
                Ok((new_size, _)) => old(self).total_saved + (if job.original_size >= new_size {
                    job.original_size - new_size
                } else {
                    0
                }) <= u64::MAX,
                Err(_) => true,
            },
        ensures
            final(self).wf(),
            final(self).results@.len() == old(self).results@.len() + 1,
            final(self).results@.drop_last() == old(self).results@,
            job_result(final(self).results@.last(), *job, outcome),
            outcome_events(events@, i, total, *job, outcome, final(self).results@.last()),
    {
        let mut events: Vec<CompressionEvent> = Vec::new();
        match outcome {
            Ok((new_size, written)) => {
                let r = self.record_success(job.file_index, job.name.as_str(), job.original_size, new_size, written);
                events.push(CompressionEvent::Stage(compressing_message(job.name.as_str())));
                events.push(
                    CompressionEvent::Progress {
                        current: i + 1,
                        total,
                        filename: job.name.clone(),
                        sub_progress: 100,
                    },
                );
                events.push(CompressionEvent::FileCompleted(r));
            },
            Err(msg) => {
                let r = self.record_failure(job.file_index, job.name.as_str(), job.original_size, msg);
                events.push(CompressionEvent::FileCompleted(r));
                proof {
                    assert(events@ =~= seq![CompressionEvent::FileCompleted(r)]);
                }
            },
        }
        proof {
            assert(self.results@.drop_last() =~= old(self).results@);
        }
        events
    }
}

/// Decodes a job's source file from its bytes, with the decoder of the
/// format its path's extension names; a file that cannot be decoded (or a
/// path without an extension) is an open error.
pub fn open_job_source(job: &CompressionJob, bytes: &[u8]) -> (r: Result<Picture, CompressError>)
    ensures
        match extension_of(job.source_path@) {
            Some(e) => (r is Ok <==> image_decodes(e, bytes@)) && (r matches Ok(p) ==> p.origin() == (
                e,
                bytes@,
                Seq::<(u32, u32, Resampling)>::empty(),
            )),
            None => r is Err,
        },
        r matches Err(e) ==> e is OpenFailed,
{
    match path_extension(&job.source_path) {
        Some(ext) => match Picture::open(&ext, bytes) {
            Some(p) => Ok(p),
            None => Err(CompressError::OpenFailed),
        },
        None => Err(CompressError::OpenFailed),
    }
}

/// Compresses a job's decoded picture: resized as its settings ask (with
/// `scaled_side` the other side for a single size limit), converted to its
/// colour setting's layout, and encoded for the target format; gives the
/// path the file goes to before name clashes are resolved and the encoding.
/// The encoder follows the target format, or for `Same` the source's
/// lowercase extension; an extension no encoder writes is an unsupported
/// format.
pub fn compress_job(job: &CompressionJob, global_format: Option<OutputFormat>, pic: Picture, scaled_side: u32) -> (r:
    Result<(String, Encoded), CompressError>)
    ensures
        ({
            let target = match global_format {
                Some(g) => g,
                None => job.settings.output_format,
            };
            let o = processed_origin(pic.origin(), &job.settings, scaled_side);
            let layout = layout_of(job.settings.color_space);
            let (w, h) = picture_dims(o);
            let px = picture_pixels(o, layout);
            match encoder_for(target, lower_extension(job.source_path@)) {
                None => r matches Err(e) && e is UnsupportedFormat,
                Some(enc) => {
                    &&& (r is Ok <==> !encoding_fails(enc, px, w, h, layout, &job.settings))
                    &&& match r {
                        Ok((base, out)) => base@ == base_output_path(job.output_path@, target) && encoded_as(
                            enc,
                            px,
                            w,
                            h,
                            layout,
                            &job.settings,
                            out,
                        ),
                        Err(e) => e is Encoder,
                    }
                },
            }
        }),
{
    let target = resolve_target_format(global_format, job.settings.output_format);
    let enc = match path_extension(&job.source_path) {
        Some(e) => {
            let lower = to_lowercase(&e);
            choose_encoder(target, Some(lower.as_str()))
        },
        None => choose_encoder(target, None),
    };
    let enc = match enc {
        Ok(e) => e,
        Err(e) => {
            return Err(e);
        },
    };
    let processed = process_picture(pic, &job.settings, scaled_side);
    let layout = layout_for(job.settings.color_space);
    let (w, h) = processed.size();
    let pixels = processed.pixels(layout);
    let base = output_base_path(&job.output_path, target);
    match encode_pixels(enc, &pixels, w, h, layout, &job.settings) {
        Ok(out) => Ok((base, out)),
        Err(e) => Err(e),
    }
}

/// How many events a job adds to a run: its stage message, then three
/// events for a written file or one for a failure.
pub open spec fn job_event_count(o: JobOutcome) -> int {
    match o {
        Ok(_) => 4,
        Err(_) => 2,
    }
}

/// Where the events of job `k` begin, counted after the start event.
pub open spec fn job_events_start(os: Seq<JobOutcome>, k: int) -> int
    decreases k,
{
    if k <= 0 {
        0
    } else {
        job_events_start(os, k - 1) + job_event_count(os[k - 1])
    }
}

/// The bytes a job saves.
pub open spec fn job_saving(job: CompressionJob, o: JobOutcome) -> nat {
    match o {
        Ok((new_size, _)) => if job.original_size >= new_size {
            (job.original_size - new_size) as nat
        } else {
            0
        },
        Err(_) => 0,
    }
}

/// The bytes the first `k` jobs save.
pub open spec fn run_saving(jobs: Seq<CompressionJob>, os: Seq<JobOutcome>, k: int) -> nat
    decreases k,
{
    if k <= 0 {
        0
    } else {
        run_saving(jobs, os, k - 1) + job_saving(jobs[k - 1], os[k - 1])
    }
}

proof fn lemma_run_saving_grows(jobs: Seq<CompressionJob>, os: Seq<JobOutcome>, i: int, j: int)
    requires
        0 <= i <= j,
    ensures
        run_saving(jobs, os, i) <= run_saving(jobs, os, j),
    decreases j - i,
{
    if i < j {
        lemma_run_saving_grows(jobs, os, i, j - 1);
    }
}

/// The events job `k` of a run adds, with `r` its result: its stage
/// message, then the events `outcome_events` lists for it.
pub open spec fn job_events_hold(
    events: Seq<CompressionEvent>,
    jobs: Seq<CompressionJob>,
    os: Seq<JobOutcome>,
    r: FileResult,
    k: int,
) -> bool {
    let at = 1 + job_events_start(os, k);
    &&& job_result(r, jobs[k], os[k])
    &&& events[at] matches CompressionEvent::Stage(s) && s@ == stage_text(
        "Converting "@,
        jobs[k].name@,
        utf8_len(jobs[k].name@),
    )
    &&& outcome_events(
        events.subrange(at + 1, 1 + job_events_start(os, k + 1)),
        k as usize,
        jobs.len() as usize,
        jobs[k],
        os[k],
        r,
    )
}

/// The events of a whole run whose jobs had the given outcomes: the start
/// with the number of jobs; for each job in order its stage message, then
/// the events `outcome_events` lists for it; last the completion, carrying
/// each job's result in order, the number written and the bytes saved.
pub open spec fn run_events_hold(
    events: Seq<CompressionEvent>,
    jobs: Seq<CompressionJob>,
    os: Seq<JobOutcome>,
) -> bool {
    let n = jobs.len();
    &&& events.len() == job_events_start(os, n as int) + 2
    &&& events[0] == CompressionEvent::Started(n as usize)
    &&& events.last() matches CompressionEvent::Completed { success_count, total_saved, results } && {
        &&& results@.len() == n
        &&& success_count == successes(results@)
        &&& total_saved == total_saving(results@)
        &&& total_saved == run_saving(jobs, os, n as int)
        &&& forall|k: int| 0 <= k < n ==> #[trigger] job_events_hold(events, jobs, os, results@[k], k)
    }
}

fn copy_outcome(o: &JobOutcome) -> (r: JobOutcome)
    ensures
        r == *o,
{
    match o {
        Ok((size, written)) => Ok((*size, written.clone())),
        Err(msg) => Err(msg.clone()),
    }
}

/// Job `k`'s events stay as they were when later events are added.
proof fn lemma_job_events_kept(
    before: Seq<CompressionEvent>,
    after: Seq<CompressionEvent>,
    jobs: Seq<CompressionJob>,
    os: Seq<JobOutcome>,
    r: FileResult,
    k: int,
    done: int,
)
    requires
        0 <= k < done <= os.len(),
        before.len() == 1 + job_events_start(os, done),
        before.len() <= after.len(),
        forall|x: int| 0 <= x < before.len() ==> after[x] == before[x],
        job_events_hold(before, jobs, os, r, k),
    ensures
        job_events_hold(after, jobs, os, r, k),
{
    lemma_events_start_grows(os, 0, k);
    lemma_events_start_grows(os, k + 1, done);
    assert(job_events_start(os, k + 1) == job_events_start(os, k) + job_event_count(os[k]));
    let at = 1 + job_events_start(os, k);
    let hi = 1 + job_events_start(os, k + 1);
    assert(after.subrange(at + 1, hi) =~= before.subrange(at + 1, hi));
    assert(after[at] == before[at]);
}

/// The events a run sends, from the jobs and what became of each, in the
/// order the worker sends them.
pub fn run_events(jobs: &Vec<CompressionJob>, outcomes: &Vec<JobOutcome>) -> (events: Vec<CompressionEvent>)
    requires
        jobs.len() == outcomes.len(),
        jobs.len() < usize::MAX,
        run_saving(jobs@, outcomes@, jobs.len() as int) <= u64::MAX,
    ensures
        run_events_hold(events@, jobs@, outcomes@),
{
    let n = jobs.len();
    let mut events: Vec<CompressionEvent> = Vec::new();
    events.push(CompressionEvent::Started(n));
    let mut tally = BatchTally::new();
    let mut i: usize = 0;
    while i < n
        invariant
            n == jobs.len(),
            n == outcomes.len(),
            n < usize::MAX,
            run_saving(jobs@, outcomes@, n as int) <= u64::MAX,
            i <= n,
            tally.wf(),
            tally.results@.len() == i,
            tally.total_saved == run_saving(jobs@, outcomes@, i as int),
            events@.len() == job_events_start(outcomes@, i as int) + 1,
            events@[0] == CompressionEvent::Started(n),
            forall|k: int|
                0 <= k < i ==> #[trigger] job_events_hold(events@, jobs@, outcomes@, tally.results@[k], k),
        decreases n - i,
    {
        let ghost before = events@;
        let ghost results_before = tally.results@;
        let job = &jobs[i];
        events.push(CompressionEvent::Stage(converting_message(job.name.as_str())));
        let ghost mid = events@;
        proof {
            lemma_run_saving_grows(jobs@, outcomes@, i as int + 1, n as int);
        }
        let outcome = copy_outcome(&outcomes[i]);
        let mut evs = tally.record_outcome(i, n, job, outcome);
        let ghost chunk = evs@;
        events.append(&mut evs);
        proof {
            lemma_events_start_grows(outcomes@, 0, i as int);
            assert(events@ == mid + chunk);
            assert forall|x: int| 0 <= x < before.len() implies events@[x] == before[x] by {
                assert(events@[x] == mid[x]);
            }
            let at = 1 + job_events_start(outcomes@, i as int);
            assert(job_events_start(outcomes@, i as int + 1) == job_events_start(outcomes@, i as int)
                + job_event_count(outcomes@[i as int]));
            assert(events@[at] == mid.last());
            assert(events@.subrange(at + 1, 1 + job_events_start(outcomes@, i + 1)) =~= chunk);
            assert(tally.results@[i as int] == tally.results@.last());
            assert(job_events_hold(events@, jobs@, outcomes@, tally.results@[i as int], i as int));
            assert forall|k: int|
                0 <= k < i + 1 implies #[trigger] job_events_hold(events@, jobs@, outcomes@, tally.results@[k], k) by {
                if k < i {
                    assert(tally.results@.drop_last() == results_before);
                    assert(results_before[k] == tally.results@[k]);
                    assert(job_events_hold(before, jobs@, outcomes@, results_before[k], k));
                    lemma_job_events_kept(before, events@, jobs@, outcomes@, results_before[k], k, i as int);
                }
            }
        }
        i = i + 1;
    }
    let ghost before = events@;
    let ghost rs = tally.results@;
    let done = tally.finish();
    events.push(done);
    proof {
        lemma_events_start_grows(outcomes@, 0, n as int);
        assert(events@ == before.push(done));
        assert forall|x: int| 0 <= x < before.len() implies events@[x] == before[x] by {}
        assert(events@.last() == done);
        assert(events@.last() matches CompressionEvent::Completed { total_saved, results, .. } && results@ == rs
            && total_saved == run_saving(jobs@, outcomes@, n as int));
        assert forall|k: int| 0 <= k < n implies #[trigger] job_events_hold(events@, jobs@, outcomes@, rs[k], k) by {
            assert(job_events_hold(before, jobs@, outcomes@, rs[k], k));
            lemma_job_events_kept(before, events@, jobs@, outcomes@, rs[k], k, n as int);
        }
        assert(events@.len() == job_events_start(outcomes@, n as int) + 2);
        assert(events@[0] == CompressionEvent::Started(n));
    }
    events
}

proof fn lemma_events_start_grows(os: Seq<JobOutcome>, i: int, j: int)
    requires
        0 <= i <= j,
    ensures
        job_events_start(os, i) <= job_events_start(os, j),
    decreases j - i,
{
    if i < j {
        lemma_events_start_grows(os, i, j - 1);
    }
}

/// The entry the output panel keeps for a file's result.
pub open spec fn result_entry(r: FileResult) -> CompressionResult {
    CompressionResult {
        file_index: r.file_index,
        original_size: r.original_size,
        new_size: r.new_size,
        output_filename: r.output_filename,
        error: r.error,
    }
}

/// The file list after a run: each file of a result takes its new size
/// and leaves the queue, in the order of the results.
pub open spec fn results_applied(files: Seq<ImageFile>, rs: Seq<FileResult>) -> Seq<ImageFile>
    decreases rs.len(),
{
    if rs.len() == 0 {
        files
    } else {
        let f1 = results_applied(files, rs.drop_last());
        let r = rs.last();
        f1.update(r.file_index as int, ImageFile { size: r.new_size, queued: false, ..f1[r.file_index as int] })
    }
}

/// The message of the first result with an error, empty when there is none.
pub open spec fn first_error(rs: Seq<FileResult>) -> Seq<char>
    decreases rs.len(),
{
    if rs.len() == 0 {
        Seq::empty()
    } else if rs[0].error is Some {
        rs[0].error.unwrap()@
    } else {
        first_error(rs.drop_first())
    }
}

/// The message after a run without failures.
pub open spec fn success_text(count: nat, saved: nat) -> Seq<char> {
    "Compressed "@ + decimal(count) + " files, saved "@ + human_bytes(saved)
}

/// The message after a run with failures.
pub open spec fn failure_text(ok: nat, failed: nat, first: Seq<char>) -> Seq<char> {
    "Completed: "@ + decimal(ok) + " ok, "@ + decimal(failed) + " failed - "@ + first
}

/// Whether the list is read again after a run: when the output went next to
/// the sources or into the current directory.
pub open spec fn reload_after_run(m: AppModel) -> bool {
    match m.global_output_directory {
        Some(d) => path_key_of(d) == path_key_of(m.current_dir),
        None => true,
    }
}

/// The end of a run: the interface is free again, the written files take
/// their new sizes and leave the queue, and the outcome is reported.
pub open spec fn completed_step(m: AppModel, success_count: usize, total_saved: u64, rs: Seq<FileResult>) -> (
    AppModel,
    Seq<Effect>,
) {
    let files = results_applied(m.files, rs);
    let failed = failures(rs);
    let m1 = AppModel {
        compressing: false,
        progress: None,
        focused_column: FocusedColumn::Files,
        files,
        queue: queued_indices(files),
        ..m
    };
    let m2 = if failed == 0 {
        AppModel { success_message: Some(success_text(success_count as nat, total_saved as nat)), ..m1 }
    } else {
        AppModel { error_message: Some(failure_text(success_count as nat, failed, first_error(rs))), ..m1 }
    };
    (
        m2,
        if reload_after_run(m) {
            seq![Effect::LoadDirectory]
        } else {
            Seq::empty()
        },
    )
}

/// How the interface takes in one event of the worker.
pub open spec fn event_step(m: AppModel, ev: CompressionEvent) -> (AppModel, Seq<Effect>) {
    match ev {
        CompressionEvent::Started(total) => (
            AppModel { progress: Some((0usize, total, 0u8, "Starting..."@)), compression_results: Seq::empty(), ..m },
            Seq::empty(),
        ),
        CompressionEvent::Progress { current, total, filename, sub_progress } => (
            AppModel { progress: Some((current, total, sub_progress, filename@)), ..m },
            Seq::empty(),
        ),
        CompressionEvent::Stage(stage) => (
            match m.progress {
                Some((current, total, _, _)) => AppModel { progress: Some((current, total, 0u8, stage@)), ..m },
                None => m,
            },
            Seq::empty(),
        ),
        CompressionEvent::FileCompleted(r) => (
            AppModel { compression_results: m.compression_results.push(result_entry(r)), ..m },
            Seq::empty(),
        ),
        CompressionEvent::Completed { success_count, total_saved, results } => completed_step(
            m,
            success_count,
            total_saved,
            results@,
        ),
        CompressionEvent::Cancelled => (
            AppModel {
                compressing: false,
                compression_cancelled: false,
                progress: None,
                focused_column: FocusedColumn::Files,
                error_message: Some("Compression cancelled"@),
                ..m
            },
            Seq::empty(),
        ),
    }
}

/// The events taken in one after the other, and all work they ask for.
pub open spec fn events_step(m: AppModel, evs: Seq<CompressionEvent>) -> (AppModel, Seq<Effect>)
    decreases evs.len(),
{
    if evs.len() == 0 {
        (m, Seq::empty())
    } else {
        let (m1, e1) = events_step(m, evs.drop_last());
        let (m2, e2) = event_step(m1, evs.last());
        (m2, e1 + e2)
    }
}

/// The results of an event point into a list of `len` files.
pub open spec fn event_fits(ev: CompressionEvent, len: nat) -> bool {
    match ev {
        CompressionEvent::Completed { results, .. } => forall|j: int|
            0 <= j < results@.len() ==> (#[trigger] results@[j]).file_index < len,
        _ => true,
    }
}

proof fn lemma_results_applied_len(files: Seq<ImageFile>, rs: Seq<FileResult>)
    requires
        forall|j: int| 0 <= j < rs.len() ==> (#[trigger] rs[j]).file_index < files.len(),
    ensures
        results_applied(files, rs).len() == files.len(),
    decreases rs.len(),
{
    if rs.len() > 0 {
        assert forall|j: int| 0 <= j < rs.drop_last().len() implies (#[trigger] rs.drop_last()[j]).file_index
            < files.len() by {
            assert(rs.drop_last()[j] == rs[j]);
        }
        lemma_results_applied_len(files, rs.drop_last());
        assert(rs.last() == rs[rs.len() - 1]);
    }
}

proof fn lemma_events_keep_len(m: AppModel, evs: Seq<CompressionEvent>)
    requires
        model_wf(m),
        forall|k: int| 0 <= k < evs.len() ==> event_fits(#[trigger] evs[k], m.files.len()),
    ensures
        events_step(m, evs).0.files.len() == m.files.len(),
        model_wf(events_step(m, evs).0),
    decreases evs.len(),
{
    if evs.len() > 0 {
        assert forall|k: int| 0 <= k < evs.drop_last().len() implies event_fits(
            #[trigger] evs.drop_last()[k],
            m.files.len(),
        ) by {
            assert(evs.drop_last()[k] == evs[k]);
        }
        lemma_events_keep_len(m, evs.drop_last());
        let m1 = events_step(m, evs.drop_last()).0;
        assert(event_fits(evs[evs.len() - 1], m.files.len()));
        match evs.last() {
            CompressionEvent::Completed { results, .. } => {
                lemma_results_applied_len(m1.files, results@);
                lemma_queued_indices_below(results_applied(m1.files, results@));
            },
            _ => {},
        }
    }
}

fn count_failures(rs: &Vec<FileResult>) -> (n: usize)
    ensures
        n == failures(rs@),
{
    let mut n: usize = 0;
    let mut i: usize = 0;
    while i < rs.len()
        invariant
            i <= rs.len(),
            n == failures(rs@.take(i as int)),
            n <= i,
        decreases rs.len() - i,
    {
        proof {
            assert(rs@.take(i + 1).drop_last() =~= rs@.take(i as int));
        }
        if rs[i].error.is_some() {
            n = n + 1;
        }
        i = i + 1;
    }
    proof {
        assert(rs@.take(rs.len() as int) =~= rs@);
    }
    n
}

fn first_error_text(rs: &Vec<FileResult>) -> (s: String)
    ensures
        s@ == first_error(rs@),
{
    let mut i: usize = 0;
    proof {
        assert(rs@.skip(0) =~= rs@);
    }
    while i < rs.len()
        invariant
            i <= rs.len(),
            first_error(rs@) == first_error(rs@.skip(i as int)),
        decreases rs.len() - i,
    {
        proof {
            assert(rs@.skip(i as int)[0] == rs@[i as int]);
            assert(rs@.skip(i as int).drop_first() =~= rs@.skip(i + 1));
        }
        match &rs[i].error {
            Some(e) => {
                return e.clone();
            },
            None => {},
        }
        i = i + 1;
    }
    String::new()
}

fn success_message_text(count: usize, saved: u64) -> (s: String)
    ensures
        s@ == success_text(count as nat, saved as nat),
{
    let mut s = "Compressed ".to_string();
    push_decimal(&mut s, count as u64);
    push_all(&mut s, " files, saved ");
    let h = bytes_to_human(saved);
    push_all(&mut s, &h);
    s
}

fn failure_message_text(ok: usize, failed: usize, first: &str) -> (s: String)
    ensures
        s@ == failure_text(ok as nat, failed as nat, first@),
{
    let mut s = "Completed: ".to_string();
    push_decimal(&mut s, ok as u64);
    push_all(&mut s, " ok, ");
    push_decimal(&mut s, failed as u64);
    push_all(&mut s, " failed - ");
    push_all(&mut s, first);
    s
}

impl App {
    fn apply_results(&mut self, results: &Vec<FileResult>)
        requires
            old(self).wf(),
            forall|j: int| 0 <= j < results@.len() ==> (#[trigger] results@[j]).file_index < old(self).files@.len(),
        ensures
            final(self).wf(),
            final(self).model() == (AppModel { files: results_applied(old(self).files@, results@), ..old(self).model() }),
            final(self).files@.len() == old(self).files@.len(),
    {
        let ghost m = old(self).model();
        let mut k: usize = 0;
        while k < results.len()
            invariant
                k <= results@.len(),
                forall|j: int| 0 <= j < results@.len() ==> (#[trigger] results@[j]).file_index < m.files.len(),
                self.files@ == results_applied(m.files, results@.take(k as int)),
                self.files@.len() == m.files.len(),
                self.model() == (AppModel { files: self.files@, ..m }),
                self.metadata_cache.inv(),
                self.exif_cache.inv(),
            decreases results.len() - k,
        {
            proof {
                assert(results@.take(k + 1).drop_last() =~= results@.take(k as int));
                assert(results@.take(k + 1).last() == results@[k as int]);
            }
            let idx = results[k].file_index;
            let n = results[k].new_size;
            self.files[idx].size = n;
            self.files[idx].queued = false;
            k = k + 1;
            proof {
                assert(self.files@ =~= results_applied(m.files, results@.take(k as int)));
                assert(self.model() =~= (AppModel { files: self.files@, ..m }));
            }
        }
        proof {
            assert(results@.take(results@.len() as int) =~= results@);
            assert forall|j: int| 0 <= j < self.model().queue.len() implies #[trigger] self.model().queue[j]
                < self.model().files.len() by {
                assert(m.queue[j] < m.files.len());
            }
        }
    }

    fn finish_run(&mut self, success_count: usize, total_saved: u64, results: &Vec<FileResult>) -> (eff: Vec<Effect>)
        requires
            old(self).wf(),
            forall|j: int| 0 <= j < results@.len() ==> (#[trigger] results@[j]).file_index < old(self).files@.len(),
        ensures
            final(self).wf(),
            (final(self).model(), eff@) == completed_step(old(self).model(), success_count, total_saved, results@),
    {
        let ghost m = old(self).model();
        let reload = match &self.global_output_directory {
            Some(d) => paths_equal(d, &self.current_dir),
            None => true,
        };
        self.apply_results(results);
        self.compressing = false;
        self.progress = None;
        self.focused_column = FocusedColumn::Files;
        proof {
            let m1 = old(self).model();
            assert forall|j: int| 0 <= j < self.model().queue.len() implies #[trigger] self.model().queue[j]
                < self.model().files.len() by {
                assert(m1.queue[j] < m1.files.len());
            }
        }
        self.update_queue_positions();
        let failed = count_failures(results);
        if failed == 0 {
            self.success_message = Some(success_message_text(success_count, total_saved));
        } else {
            let first = first_error_text(results);
            self.error_message = Some(failure_message_text(success_count, failed, &first));
        }
        let mut eff: Vec<Effect> = Vec::new();
        if reload {
            eff.push(Effect::LoadDirectory);
        }
        proof {
            assert(self.model() =~= completed_step(m, success_count, total_saved, results@).0);
            assert(eff@ =~= completed_step(m, success_count, total_saved, results@).1);
        }
        eff
    }

    fn process_event(&mut self, ev: &CompressionEvent) -> (eff: Vec<Effect>)
        requires
            old(self).wf(),
            event_fits(*ev, old(self).files@.len()),
        ensures
            final(self).wf(),
            (final(self).model(), eff@) == event_step(old(self).model(), *ev),
    {
        let ghost m = old(self).model();
        let mut eff: Vec<Effect> = Vec::new();
        match ev {
            CompressionEvent::Started(total) => {
                self.progress = Some((0, *total, 0, "Starting...".to_string()));
                self.compression_results = Vec::new();
            },
            CompressionEvent::Progress { current, total, filename, sub_progress } => {
                self.progress = Some((*current, *total, *sub_progress, filename.clone()));
            },
            CompressionEvent::Stage(stage) => {
                match &self.progress {
                    Some((current, total, _, _)) => {
                        let c = *current;
                        let t = *total;
                        self.progress = Some((c, t, 0, stage.clone()));
                    },
                    None => {},
                }
            },
            CompressionEvent::FileCompleted(r) => {
                self.compression_results.push(
                    CompressionResult {
                        file_index: r.file_index,
                        original_size: r.original_size,
                        new_size: r.new_size,
                        output_filename: copy_opt_string(&r.output_filename),
                        error: copy_opt_string(&r.error),
                    },
                );
            },
            CompressionEvent::Completed { success_count, total_saved, results } => {
                eff = self.finish_run(*success_count, *total_saved, results);
            },
            CompressionEvent::Cancelled => {
                self.compressing = false;
                self.compression_cancelled = false;
                self.progress = None;
                self.focused_column = FocusedColumn::Files;
                self.error_message = Some("Compression cancelled".to_string());
            },
        }
        proof {
            assert(self.model() =~= event_step(m, *ev).0);
            assert(eff@ =~= event_step(m, *ev).1);
        }
        eff
    }

    /// Takes in the events the worker sent, in order, and returns the work
    /// they ask for (reading the directory again after a run).
    pub fn process_compression_events(&mut self, events: Vec<CompressionEvent>) -> (eff: Vec<Effect>)
        requires
            old(self).wf(),
            forall|k: int| 0 <= k < events@.len() ==> event_fits(#[trigger] events@[k], old(self).files@.len()),
        ensures
            final(self).wf(),
            (final(self).model(), eff@) == events_step(old(self).model(), events@),
    {
        let ghost m = old(self).model();
        let mut eff: Vec<Effect> = Vec::new();
        let mut k: usize = 0;
        while k < events.len()
            invariant
                k <= events@.len(),
                model_wf(m),
                forall|j: int| 0 <= j < events@.len() ==> event_fits(#[trigger] events@[j], m.files.len()),
                self.wf(),
                self.files@.len() == m.files.len(),
                (self.model(), eff@) == events_step(m, events@.take(k as int)),
            decreases events.len() - k,
        {
            proof {
                assert(events@.take(k + 1).drop_last() =~= events@.take(k as int));
                assert(events@.take(k + 1).last() == events@[k as int]);
                assert forall|j: int| 0 <= j < events@.take(k + 1).len() implies event_fits(
                    #[trigger] events@.take(k + 1)[j],
                    m.files.len(),
                ) by {
                    assert(events@.take(k + 1)[j] == events@[j]);
                }
                lemma_events_keep_len(m, events@.take(k + 1));
                assert(event_fits(events@[k as int], m.files.len()));
            }
            let more = self.process_event(&events[k]);
            let ghost before = eff@;
            let mut more = more;
            eff.append(&mut more);
            k = k + 1;
        }
        proof {
            assert(events@.take(events@.len() as int) =~= events@);
        }
        eff
    }
}

} // verus!
