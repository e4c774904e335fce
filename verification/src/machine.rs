//! Machine state shared by the job servers and agents: the machine's status,
//! the queue of jobs waiting for delivery and the jobs delivered so far.
//!
//! Times are nanoseconds since the Unix epoch; paths are the path text.
use vstd::prelude::*;

use crate::text::owned;

verus! {

/// The state the machine reports.
#[derive(Debug)]
pub enum MachineStatus {
    Offline,
    Idle,
    Running,
    Error(String),
}

/// The view of a [`MachineStatus`].
pub enum StatusView {
    Offline,
    Idle,
    Running,
    Error(Seq<char>),
}

impl View for MachineStatus {
    type V = StatusView;

    open spec fn view(&self) -> StatusView {
        match self {
            MachineStatus::Offline => StatusView::Offline,
            MachineStatus::Idle => StatusView::Idle,
            MachineStatus::Running => StatusView::Running,
            MachineStatus::Error(e) => StatusView::Error(e@),
        }
    }
}

/// The name that reports a status: `Offline`, `Idle`, `Running` or `Error`.
pub open spec fn status_name(s: StatusView) -> Seq<char> {
    match s {
        StatusView::Offline => "Offline"@,
        StatusView::Idle => "Idle"@,
        StatusView::Running => "Running"@,
        StatusView::Error(_) => "Error"@,
    }
}

impl MachineStatus {
    /// The name of the status, without the detail of an error.
    pub fn as_str(&self) -> (s: &str)
        ensures
            s@ == status_name(self@),
    {
        match self {
            MachineStatus::Offline => "Offline",
            MachineStatus::Idle => "Idle",
            MachineStatus::Running => "Running",
            MachineStatus::Error(_) => "Error",
        }
    }
}

/// A CSV job for the machine.
#[derive(Debug)]
pub struct Job {
    pub id: String,
    pub frameset_name: String,
    pub csv_path: String,
    pub submitted_at: u128,
}

/// The view of a [`Job`].
pub struct JobView {
    pub id: Seq<char>,
    pub frameset_name: Seq<char>,
    pub csv_path: Seq<char>,
    pub submitted_at: u128,
}

impl View for Job {
    type V = JobView;

    open spec fn view(&self) -> JobView {
        JobView {
            id: self.id@,
            frameset_name: self.frameset_name@,
            csv_path: self.csv_path@,
            submitted_at: self.submitted_at,
        }
    }
}

impl Job {
    /// A job with an identifier, a frameset name, the path of its CSV and its submission time.
    pub fn new(id: String, frameset_name: String, csv_path: String, submitted_at: u128) -> (j: Job)
        ensures
            j@ == (JobView { id: id@, frameset_name: frameset_name@, csv_path: csv_path@, submitted_at }),
    {
        Job { id, frameset_name, csv_path, submitted_at }
    }

    /// A copy of the job.
    pub fn duplicate(&self) -> (j: Job)
        ensures
            j@ == self@,
    {
        Job {
            id: owned(self.id.as_str()),
            frameset_name: owned(self.frameset_name.as_str()),
            csv_path: owned(self.csv_path.as_str()),
            submitted_at: self.submitted_at,
        }
    }
}

/// The jobs of a sequence, by their views.
pub open spec fn jobs_view(jobs: Seq<Job>) -> Seq<JobView> {
    jobs.map_values(|j: Job| j@)
}

/// Everything the servers know about the machine and its job pipeline.
pub struct MachineState {
    pub status: MachineStatus,
    pub current_job: Option<String>,
    pub pieces_produced: u32,
    pub last_error: String,
    pub job_queue: Vec<Job>,
    pub completed_jobs: Vec<Job>,
    /// When a CSV was last uploaded via the web UI.
    pub last_upload_at: Option<u128>,
    /// When the delivery agent last polled the local job queue.
    pub agent_last_seen_at: Option<u128>,
    /// Last error reported by the delivery agent.
    pub agent_last_error: String,
    /// When the coil sensor last pushed a reading (`None`: no sensor fitted).
    pub sensor_last_read_at: Option<u128>,
    /// True when the remaining coil was below its alert length at the last reading.
    pub coil_low_alert: bool,
}

/// The view of a [`MachineState`].
pub struct MachineStateView {
    pub status: StatusView,
    pub current_job: Option<Seq<char>>,
    pub pieces_produced: u32,
    pub last_error: Seq<char>,
    pub job_queue: Seq<JobView>,
    pub completed_jobs: Seq<JobView>,
    pub last_upload_at: Option<u128>,
    pub agent_last_seen_at: Option<u128>,
    pub agent_last_error: Seq<char>,
    pub sensor_last_read_at: Option<u128>,
    pub coil_low_alert: bool,
}

pub open spec fn opt_text(o: Option<String>) -> Option<Seq<char>> {
    match o {
        Some(s) => Some(s@),
        None => None,
    }
}

impl View for MachineState {
    type V = MachineStateView;

    open spec fn view(&self) -> MachineStateView {
        MachineStateView {
            status: self.status@,
            current_job: opt_text(self.current_job),
            pieces_produced: self.pieces_produced,
            last_error: self.last_error@,
            job_queue: jobs_view(self.job_queue@),
            completed_jobs: jobs_view(self.completed_jobs@),
            last_upload_at: self.last_upload_at,
            agent_last_seen_at: self.agent_last_seen_at,
            agent_last_error: self.agent_last_error@,
            sensor_last_read_at: self.sensor_last_read_at,
            coil_low_alert: self.coil_low_alert,
        }
    }
}

/// The state of a machine that has not been heard from.
pub open spec fn initial_state() -> MachineStateView {
    MachineStateView {
        status: StatusView::Offline,
        current_job: None,
        pieces_produced: 0,
        last_error: Seq::empty(),
        job_queue: Seq::empty(),
        completed_jobs: Seq::empty(),
        last_upload_at: None,
        agent_last_seen_at: None,
        agent_last_error: Seq::empty(),
        sensor_last_read_at: None,
        coil_low_alert: false,
    }
}

/// The first position at or after `i` of a job with the identifier `id`.
pub open spec fn job_index_from(q: Seq<JobView>, id: Seq<char>, i: int) -> Option<int>
    decreases q.len() - i,
{
    if i < 0 || i >= q.len() {
        None
    } else if q[i].id == id {
        Some(i)
    } else {
        job_index_from(q, id, i + 1)
    }
}

/// The position of the first job with the identifier `id`.
pub open spec fn job_index(q: Seq<JobView>, id: Seq<char>) -> Option<int> {
    job_index_from(q, id, 0)
}

/// Some job of `q` has the identifier `id`.
pub open spec fn has_job(q: Seq<JobView>, id: Seq<char>) -> bool {
    exists|i: int| 0 <= i < q.len() && q[i].id == id
}

/// The state after the agent confirms delivery of the job `id` at time `now`:
/// the first queued job with that identifier moves to the completed jobs and the
/// machine is idle; when no queued job has it, only the agent's last-seen time changes.
pub open spec fn spec_complete_job(s: MachineStateView, id: Seq<char>, now: u128) -> MachineStateView {
    let seen = MachineStateView { agent_last_seen_at: Some(now), ..s };
    match job_index(s.job_queue, id) {
        Some(i) => MachineStateView {
            job_queue: s.job_queue.remove(i),
            completed_jobs: s.completed_jobs.push(s.job_queue[i]),
            status: StatusView::Idle,
            current_job: None,
            ..seen
        },
        None => seen,
    }
}

/// The state after a CSV upload queued `job` at time `now`.
pub open spec fn spec_queue_upload(s: MachineStateView, job: JobView, now: u128) -> MachineStateView {
    MachineStateView { last_upload_at: Some(now), job_queue: s.job_queue.push(job), ..s }
}

/// The state after the agent asked for pending work at time `now`.
pub open spec fn spec_agent_poll(s: MachineStateView, now: u128) -> MachineStateView {
    MachineStateView { agent_last_seen_at: Some(now), ..s }
}

/// The state after the agent reported the error `err` at time `now`.
pub open spec fn spec_agent_error(s: MachineStateView, err: Seq<char>, now: u128) -> MachineStateView {
    MachineStateView { agent_last_seen_at: Some(now), agent_last_error: err, ..s }
}

/// The state after the coil sensor pushed a reading at time `now`; `low` tells whether
/// the remaining coil is below its alert length.
pub open spec fn spec_sensor_read(s: MachineStateView, now: u128, low: bool) -> MachineStateView {
    MachineStateView { sensor_last_read_at: Some(now), coil_low_alert: low, ..s }
}

/// The state after a job was delivered to the machine by an agent: it joins the
/// completed jobs and the machine is idle with no current job.
pub open spec fn spec_record_delivery(s: MachineStateView, job: JobView) -> MachineStateView {
    MachineStateView {
        completed_jobs: s.completed_jobs.push(job),
        status: StatusView::Idle,
        current_job: None,
        ..s
    }
}

impl MachineState {
    /// The state of a machine that has not been heard from: offline, nothing queued.
    pub fn new() -> (s: MachineState)
        ensures
            s@ == initial_state(),
    {
        let s = MachineState {
            status: MachineStatus::Offline,
            current_job: None,
            pieces_produced: 0,
            last_error: String::new(),
            job_queue: Vec::new(),
            completed_jobs: Vec::new(),
            last_upload_at: None,
            agent_last_seen_at: None,
            agent_last_error: String::new(),
            sensor_last_read_at: None,
            coil_low_alert: false,
        };
        assert(jobs_view(s.job_queue@) =~= Seq::<JobView>::empty());
        assert(jobs_view(s.completed_jobs@) =~= Seq::<JobView>::empty());
        s
    }

    /// The position of the first queued job with the identifier `id`.
    pub fn find_queued(&self, id: &str) -> (r: Option<usize>)
        ensures
            r matches Some(i) ==> job_index(self@.job_queue, id@) == Some(i as int),
            r is None ==> job_index(self@.job_queue, id@) is None,
    {
        let mut i: usize = 0;
        while i < self.job_queue.len()
            invariant
                0 <= i <= self.job_queue@.len(),
                job_index(self@.job_queue, id@) == job_index_from(self@.job_queue, id@, i as int),
            decreases self.job_queue.len() - i,
        {
            assert(self@.job_queue[i as int] == self.job_queue@[i as int]@);
            if crate::text::str_eq(self.job_queue[i].id.as_str(), id) {
                return Some(i);
            }
            i = i + 1;
        }
        None
    }

    /// The agent confirms delivery of the job `id` at time `now`
    /// (`POST /api/jobs/howick/{id}/complete`).
    pub fn complete_job(&mut self, id: &str, now: u128)
        ensures
            final(self)@ == spec_complete_job(old(self)@, id@, now),
    {
        self.agent_last_seen_at = Some(now);
        match self.find_queued(id) {
            Some(pos) => {
                let ghost q = old(self)@.job_queue;
                proof {
                    lemma_job_index(q, id@);
                }
                let job = self.job_queue.remove(pos);
                self.completed_jobs.push(job);
                self.status = MachineStatus::Idle;
                self.current_job = None;
                assert(jobs_view(self.job_queue@) =~= q.remove(pos as int));
                assert(jobs_view(self.completed_jobs@) =~= old(self)@.completed_jobs.push(q[pos as int]));
            },
            None => {},
        }
    }

    /// A CSV upload queued `job` at time `now`.
    pub fn queue_upload(&mut self, job: Job, now: u128)
        ensures
            final(self)@ == spec_queue_upload(old(self)@, job@, now),
    {
        self.last_upload_at = Some(now);
        self.job_queue.push(job);
        assert(jobs_view(self.job_queue@) =~= old(self)@.job_queue.push(job@));
    }

    /// The agent asks for pending work at time `now`: the first queued job, if any.
    pub fn agent_poll(&mut self, now: u128) -> (r: Option<Job>)
        ensures
            final(self)@ == spec_agent_poll(old(self)@, now),
            match r {
                Some(j) => old(self)@.job_queue.len() > 0 && j@ == old(self)@.job_queue[0],
                None => old(self)@.job_queue.len() == 0,
            },
    {
        self.agent_last_seen_at = Some(now);
        if self.job_queue.len() > 0 {
            assert(old(self)@.job_queue[0] == self.job_queue@[0]@);
            Some(self.job_queue[0].duplicate())
        } else {
            None
        }
    }

    /// The agent reports the error `err` at time `now`.
    pub fn record_agent_error(&mut self, err: String, now: u128)
        ensures
            final(self)@ == spec_agent_error(old(self)@, err@, now),
    {
        self.agent_last_seen_at = Some(now);
        self.agent_last_error = err;
    }

    /// The coil sensor pushed a reading at time `now`; `low` tells whether the remaining
    /// coil is below its alert length.
    pub fn record_sensor_read(&mut self, now: u128, low: bool)
        ensures
            final(self)@ == spec_sensor_read(old(self)@, now, low),
    {
        self.sensor_last_read_at = Some(now);
        self.coil_low_alert = low;
    }

    /// The machine starts on the frameset `frameset_name`.
    pub fn mark_running(&mut self, frameset_name: String)
        ensures
            final(self)@ == (MachineStateView {
                status: StatusView::Running,
                current_job: Some(frameset_name@),
                ..old(self)@
            }),
    {
        self.status = MachineStatus::Running;
        self.current_job = Some(frameset_name);
    }

    /// An agent delivered `job` to the machine.
    pub fn record_delivery(&mut self, job: Job)
        ensures
            final(self)@ == spec_record_delivery(old(self)@, job@),
    {
        self.completed_jobs.push(job);
        self.status = MachineStatus::Idle;
        self.current_job = None;
        assert(jobs_view(self.completed_jobs@) =~= old(self)@.completed_jobs.push(job@));
    }

    /// The status changes to `status`.
    pub fn set_status(&mut self, status: MachineStatus)
        ensures
            final(self)@ == (MachineStateView { status: status@, ..old(self)@ }),
    {
        self.status = status;
    }
}

// ───────────────────────────── laws ─────────────────────────────

proof fn lemma_job_index_from_facts(q: Seq<JobView>, id: Seq<char>, i: int)
    requires
        0 <= i,
    ensures
        job_index_from(q, id, i) matches Some(k) ==> i <= k < q.len() && q[k].id == id && forall|j: int|
            i <= j < k ==> q[j].id != id,
        job_index_from(q, id, i) is None ==> forall|j: int| i <= j < q.len() ==> q[j].id != id,
    decreases q.len() - i,
{
    if i < q.len() && q[i].id != id {
        lemma_job_index_from_facts(q, id, i + 1);
    }
}

/// The first queued job with an identifier is found exactly when some queued job has it.
pub proof fn lemma_job_index(q: Seq<JobView>, id: Seq<char>)
    ensures
        job_index(q, id) matches Some(k) ==> 0 <= k < q.len() && q[k].id == id && forall|j: int|
            0 <= j < k ==> q[j].id != id,
        job_index(q, id) is None <==> !has_job(q, id),
{
    lemma_job_index_from_facts(q, id, 0);
}

/// Confirming a delivery never loses or invents a job: the queued and the completed
/// jobs together keep their number.
pub proof fn lemma_complete_conserves_jobs(s: MachineStateView, id: Seq<char>, now: u128)
    ensures
        spec_complete_job(s, id, now).job_queue.len() + spec_complete_job(s, id, now).completed_jobs.len()
            == s.job_queue.len() + s.completed_jobs.len(),
{
    lemma_job_index(s.job_queue, id);
}

/// Confirming a job that is not queued changes nothing but the agent's last-seen time.
pub proof fn lemma_complete_unknown_job(s: MachineStateView, id: Seq<char>, now: u128)
    requires
        !has_job(s.job_queue, id),
    ensures
        spec_complete_job(s, id, now) == spec_agent_poll(s, now),
{
    lemma_job_index(s.job_queue, id);
}

/// The pipeline of an upload: a job queued by an upload is what the agent is served
/// when the queue was empty, and confirming its delivery empties the queue again and
/// appends it to the completed jobs.
pub proof fn lemma_upload_poll_complete(s: MachineStateView, job: JobView, t1: u128, t2: u128, t3: u128)
    requires
        s.job_queue.len() == 0,
    ensures
        ({
            let queued = spec_queue_upload(s, job, t1);
            let polled = spec_agent_poll(queued, t2);
            let done = spec_complete_job(polled, job.id, t3);
            &&& queued.job_queue.len() == 1
            &&& queued.job_queue[0] == job
            &&& done.job_queue.len() == 0
            &&& done.completed_jobs == s.completed_jobs.push(job)
            &&& done.status == StatusView::Idle
        }),
{
    let queued = spec_queue_upload(s, job, t1);
    let polled = spec_agent_poll(queued, t2);
    assert(polled.job_queue[0].id == job.id);
    assert(job_index(polled.job_queue, job.id) == Some(0int));
}

/// What each request to the job server may change, and nothing else:
/// - asking for pending work changes only the agent's last-seen time;
/// - confirming a delivery changes the agent's last-seen time and, only when some
///   queued job has the identifier, the queue, the completed jobs, the status and the
///   current job; the queue then shrinks by one and the completed jobs grow by one;
/// - an agent's error report changes only the agent's last-seen time and last error;
/// - an accepted upload changes only the upload time and appends one job to the queue;
/// - a coil reading changes only the sensor's time and the low-coil flag.
/// (The other requests only read the state.)
pub proof fn lemma_request_frames(
    s: MachineStateView,
    id: Seq<char>,
    err: Seq<char>,
    job: JobView,
    low: bool,
    now: u128,
)
    ensures
        spec_agent_poll(s, now) == (MachineStateView { agent_last_seen_at: Some(now), ..s }),
        ({
            let t = spec_complete_job(s, id, now);
            &&& t == (MachineStateView {
                agent_last_seen_at: Some(now),
                job_queue: t.job_queue,
                completed_jobs: t.completed_jobs,
                status: t.status,
                current_job: t.current_job,
                ..s
            })
            &&& !has_job(s.job_queue, id) ==> t == spec_agent_poll(s, now)
            &&& has_job(s.job_queue, id) ==> t.job_queue.len() + 1 == s.job_queue.len()
                && t.completed_jobs.len() == s.completed_jobs.len() + 1
        }),
        spec_agent_error(s, err, now) == (MachineStateView {
            agent_last_seen_at: Some(now),
            agent_last_error: err,
            ..s
        }),
        spec_queue_upload(s, job, now) == (MachineStateView {
            last_upload_at: Some(now),
            job_queue: s.job_queue.push(job),
            ..s
        }),
        spec_sensor_read(s, now, low) == (MachineStateView {
            sensor_last_read_at: Some(now),
            coil_low_alert: low,
            ..s
        }),
{
    lemma_job_index(s.job_queue, id);
}

/// Queueing a job whose identifier is not queued yet and then confirming it leaves the
/// queue as it was and appends the job to the completed jobs.
pub proof fn lemma_queue_then_complete(s: MachineStateView, job: JobView, t1: u128, t2: u128)
    requires
        !has_job(s.job_queue, job.id),
    ensures
        spec_complete_job(spec_queue_upload(s, job, t1), job.id, t2).job_queue == s.job_queue,
        spec_complete_job(spec_queue_upload(s, job, t1), job.id, t2).completed_jobs
            == s.completed_jobs.push(job),
{
    let q = s.job_queue.push(job);
    lemma_job_index(s.job_queue, job.id);
    assert forall|j: int| 0 <= j < s.job_queue.len() implies q[j].id != job.id by {
        assert(q[j] == s.job_queue[j]);
    }
    assert(q[s.job_queue.len() as int].id == job.id);
    lemma_job_index_from_facts(q, job.id, 0);
    let k = job_index(q, job.id);
    assert(k == Some(s.job_queue.len() as int)) by {
        if k is None {
        } else {
            let kk = k->0;
            if kk < s.job_queue.len() {
                assert(q[kk].id != job.id);
            }
        }
    }
    assert(q.remove(s.job_queue.len() as int) =~= s.job_queue);
}

} // verus!
