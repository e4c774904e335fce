//! Jobs picked up from CSV files dropped into the job input directory.
//!
//! The directory watch and the file copy happen in the program; which files count,
//! how a file becomes a job and what it does to the machine state are decided here.
use vstd::prelude::*;

use crate::http::{job_id, job_id_for, opt_view};
use crate::machine::{
    has_job, job_index, lemma_job_index, Job, JobView, MachineState, MachineStateView, StatusView,
};
use crate::text::{ascii_lower, ascii_lowercase, chars_of, owned, same_text};

verus! {

/// The extension of a path (`Path::extension`), as text.  This and the three names
/// below stand for `std::path` on the target the crate is built for: the separators
/// differ between Unix and Windows, and nothing here says which applies.
pub uninterp spec fn spec_path_extension(path: Seq<char>) -> Option<Seq<char>>;

/// The file name of a path without its extension (`Path::file_stem`), as text.
pub uninterp spec fn spec_path_file_stem(path: Seq<char>) -> Option<Seq<char>>;

/// The last component of a path (`Path::file_name`), as text.
pub uninterp spec fn spec_path_file_name(path: Seq<char>) -> Option<Seq<char>>;

/// Whether two paths are equal component by component (`Path`'s `==`).
pub uninterp spec fn spec_same_path(a: Seq<char>, b: Seq<char>) -> bool;

/// `Path::extension` of a path given as text; its result is named by `spec_path_extension`.
#[verifier::external_body]
pub(crate) fn path_extension(path: &str) -> (r: Option<String>)
    ensures
        opt_view(r) == spec_path_extension(path@),
{
    std::path::Path::new(path).extension().map(|e| e.to_string_lossy().into_owned())
}

/// `Path::file_stem` of a path given as text; its result is named by `spec_path_file_stem`.
#[verifier::external_body]
pub(crate) fn path_file_stem(path: &str) -> (r: Option<String>)
    ensures
        opt_view(r) == spec_path_file_stem(path@),
{
    std::path::Path::new(path).file_stem().map(|e| e.to_string_lossy().into_owned())
}

/// `Path::file_name` of a path given as text; its result is named by `spec_path_file_name`.
#[verifier::external_body]
pub(crate) fn path_file_name(path: &str) -> (r: Option<String>)
    ensures
        opt_view(r) == spec_path_file_name(path@),
{
    std::path::Path::new(path).file_name().map(|e| e.to_string_lossy().into_owned())
}

/// `Path`'s `==` on two paths given as text; its result is named by `spec_same_path`.
/// Equal texts are equal paths.
#[verifier::external_body]
pub(crate) fn same_path(a: &str, b: &str) -> (r: bool)
    ensures
        r == spec_same_path(a@, b@),
        a@ == b@ ==> r,
{
    std::path::Path::new(a) == std::path::Path::new(b)
}

/// A path names a CSV file: its extension is `csv` in any ASCII case.
pub open spec fn spec_is_csv(path: Seq<char>) -> bool {
    match spec_path_extension(path) {
        Some(e) => ascii_lower(e) == "csv"@,
        None => false,
    }
}

/// Whether a path names a CSV file.
pub fn is_csv(path: &str) -> (b: bool)
    ensures
        b == spec_is_csv(path@),
{
    match path_extension(path) {
        Some(e) => {
            let ev = chars_of(e.as_str());
            let lower = ascii_lowercase(&ev);
            let csv = chars_of("csv");
            same_text(&lower, &csv)
        },
        None => false,
    }
}

/// The frameset a CSV file holds: its file stem (`W1.csv` holds `W1`), `unknown` without one.
pub open spec fn spec_frameset_of(path: Seq<char>) -> Seq<char> {
    match spec_path_file_stem(path) {
        Some(s) => s,
        None => "unknown"@,
    }
}

/// The job for a CSV file found at `now`.
pub open spec fn spec_watched_job(path: Seq<char>, now: u128) -> JobView {
    JobView {
        id: job_id_for(spec_frameset_of(path), now),
        frameset_name: spec_frameset_of(path),
        csv_path: path,
        submitted_at: now,
    }
}

/// The job for a CSV file found at `now`: named after the file's stem, identified by
/// the stem and the time in seconds.
pub fn watched_job(path: &str, now: u128) -> (j: Job)
    ensures
        j@ == spec_watched_job(path@, now),
        j.csv_path@ == path@,
        j.submitted_at == now,
{
    let frameset = match path_file_stem(path) {
        Some(s) => s,
        None => owned("unknown"),
    };
    let id = job_id(frameset.as_str(), now);
    Job::new(id, frameset, owned(path), now)
}

/// The name under which a found CSV is copied to the machine: its file name, or
/// `unknown.csv` without one.
pub fn delivery_file_name(path: &str) -> (n: String)
    ensures
        n@ == (match spec_path_file_name(path@) {
            Some(s) => s,
            None => "unknown.csv"@,
        }),
{
    match path_file_name(path) {
        Some(s) => s,
        None => owned("unknown.csv"),
    }
}

/// Some queued job reads its CSV from the same path as `path`.
pub open spec fn path_queued(q: Seq<JobView>, path: Seq<char>) -> bool {
    exists|i: int| 0 <= i < q.len() && spec_same_path(q[i].csv_path, path)
}

/// The state after the job server's watcher saw `job`'s file: the job is queued for the
/// agent and the machine is idle, unless a queued job already reads that file.
pub open spec fn spec_enqueue_watched(s: MachineStateView, job: JobView) -> MachineStateView {
    if path_queued(s.job_queue, job.csv_path) {
        s
    } else {
        MachineStateView { job_queue: s.job_queue.push(job), status: StatusView::Idle, ..s }
    }
}

/// Hold a found job in the queue for the agent; skip it when an upload already queued
/// its file.  Returns whether it was queued.
pub fn enqueue_watched(state: &mut MachineState, job: Job) -> (queued: bool)
    ensures
        final(state)@ == spec_enqueue_watched(old(state)@, job@),
        queued == !path_queued(old(state)@.job_queue, job@.csv_path),
        (exists|i: int|
            0 <= i < old(state)@.job_queue.len() && #[trigger] old(state)@.job_queue[i].csv_path
                == job@.csv_path) ==> !queued,
{
    let mut i: usize = 0;
    while i < state.job_queue.len()
        invariant
            0 <= i <= state.job_queue@.len(),
            forall|k: int| 0 <= k < i ==> !spec_same_path(state@.job_queue[k].csv_path, job@.csv_path),
            forall|k: int| 0 <= k < i ==> #[trigger] state@.job_queue[k].csv_path != job@.csv_path,
        decreases state.job_queue.len() - i,
    {
        if same_path(state.job_queue[i].csv_path.as_str(), job.csv_path.as_str()) {
            assert(state@.job_queue[i as int].csv_path == state.job_queue@[i as int].csv_path@);
            return false;
        }
        assert(state@.job_queue[i as int].csv_path == state.job_queue@[i as int].csv_path@);
        i = i + 1;
    }
    let ghost s0 = state@;
    state.job_queue.push(job);
    state.status = crate::machine::MachineStatus::Idle;
    assert(state@.job_queue =~= s0.job_queue.push(job@));
    true
}

/// The state after the edge watcher delivered the file of the queued job `id` to the
/// machine directly: the machine ran the frameset, the job moved to the completed jobs,
/// and the machine is idle again with the frameset still named as the current job.
pub open spec fn spec_finish_direct(s: MachineStateView, id: Seq<char>, frameset_name: Seq<char>) -> MachineStateView {
    let ran = MachineStateView { status: StatusView::Idle, current_job: Some(frameset_name), ..s };
    match job_index(s.job_queue, id) {
        Some(i) => MachineStateView {
            job_queue: s.job_queue.remove(i),
            completed_jobs: s.completed_jobs.push(s.job_queue[i]),
            ..ran
        },
        None => ran,
    }
}

/// Queue a job found by the edge watcher before its file is copied to the machine.
pub fn begin_direct(state: &mut MachineState, job: Job)
    ensures
        final(state)@ == (MachineStateView { job_queue: old(state)@.job_queue.push(job@), ..old(state)@ }),
{
    let ghost s0 = state@;
    state.job_queue.push(job);
    assert(state@.job_queue =~= s0.job_queue.push(job@));
}

/// The file of the queued job `id` reached the machine: record the run and move the job
/// to the completed jobs.
pub fn finish_direct(state: &mut MachineState, id: &str, frameset_name: String)
    ensures
        final(state)@ == spec_finish_direct(old(state)@, id@, frameset_name@),
{
    state.status = crate::machine::MachineStatus::Running;
    state.current_job = Some(frameset_name);
    match state.find_queued(id) {
        Some(pos) => {
            let ghost s1 = state@;
            proof {
                lemma_job_index(s1.job_queue, id@);
            }
            let job = state.job_queue.remove(pos);
            state.completed_jobs.push(job);
            assert(state@.job_queue =~= s1.job_queue.remove(pos as int));
            assert(state@.completed_jobs =~= s1.completed_jobs.push(s1.job_queue[pos as int]));
        },
        None => {},
    }
    state.status = crate::machine::MachineStatus::Idle;
}

// ───────────────────────────── laws ─────────────────────────────

/// The job made for a found CSV file reads its CSV from the very path that was found
/// (not from its bare file name), is stamped with the time it was found, and is named
/// `{frameset}-{seconds}` after the frameset it holds (for any time whose seconds fit
/// in a `u64`).
pub proof fn lemma_watched_job_reads_found_path(path: Seq<char>, now: u128)
    ensures
        spec_watched_job(path, now).csv_path == path,
        spec_watched_job(path, now).submitted_at == now,
        now / 1_000_000_000 <= u64::MAX ==> spec_watched_job(path, now).id == spec_watched_job(
            path,
            now,
        ).frameset_name + "-"@ + crate::text::spec_decimal((now / 1_000_000_000) as nat),
{
}

/// A file that is already queued is never queued twice; one that is not is appended to
/// the queue once.
pub proof fn lemma_enqueue_watched_once(s: MachineStateView, job: JobView)
    ensures
        path_queued(s.job_queue, job.csv_path) ==> spec_enqueue_watched(s, job) == s,
        !path_queued(s.job_queue, job.csv_path) ==> spec_enqueue_watched(s, job).job_queue
            == s.job_queue.push(job),
{
}

} // verus!
