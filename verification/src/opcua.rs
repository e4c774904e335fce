//! The machine state as OPC UA nodes, and the job delivery over OPC UA.
//!
//! The server publishes the state in `Machine/*` and `Jobs/*` variables and accepts
//! `Jobs/CompleteJob(job_id)`; the agent subscribes to `Jobs/PendingJobId`.  The
//! sessions and the address space belong to the program; what the nodes hold and
//! what a method call or a notification does are decided here.
use vstd::prelude::*;

use crate::machine::{
    job_index, lemma_job_index, Job, JobView, MachineState, MachineStateView, status_name,
    spec_record_delivery,
};
use crate::text::{owned, push_str, spec_decimal, decimal};

verus! {

/// Why a `CompleteJob` call was refused.
#[derive(Debug, Clone, Copy, PartialEq, Eq, Structural)]
pub enum CompleteJobError {
    /// The first argument is missing or not a string (`BadTypeMismatch`).
    TypeMismatch,
    /// The job identifier is empty (`BadInvalidArgument`).
    InvalidArgument,
}

/// The string argument of a method call: `None` when the first argument is missing or
/// not a string, `Some(None)` for a null string.
pub open spec fn spec_complete_job_argument(arg: Option<Option<Seq<char>>>) -> Result<Seq<char>, CompleteJobError> {
    match arg {
        None => Err(CompleteJobError::TypeMismatch),
        Some(value) => {
            let id = match value {
                Some(s) => s,
                None => Seq::empty(),
            };
            if id.len() == 0 {
                Err(CompleteJobError::InvalidArgument)
            } else {
                Ok(id)
            }
        },
    }
}

pub open spec fn opt_opt_view(arg: Option<Option<String>>) -> Option<Option<Seq<char>>> {
    match arg {
        None => None,
        Some(None) => Some(None),
        Some(Some(s)) => Some(Some(s@)),
    }
}

/// The job identifier of a `Jobs/CompleteJob` call.
pub fn complete_job_argument(arg: Option<Option<String>>) -> (r: Result<String, CompleteJobError>)
    ensures
        match r {
            Ok(id) => spec_complete_job_argument(opt_opt_view(arg)) == Ok::<Seq<char>, CompleteJobError>(id@),
            Err(e) => spec_complete_job_argument(opt_opt_view(arg)) == Err::<Seq<char>, CompleteJobError>(e),
        },
{
    match arg {
        None => Err(CompleteJobError::TypeMismatch),
        Some(value) => {
            let id = match value {
                Some(s) => s,
                None => String::new(),
            };
            if id.as_str().is_empty() {
                Err(CompleteJobError::InvalidArgument)
            } else {
                Ok(id)
            }
        },
    }
}

/// The state after a delivery confirmed over OPC UA: the first queued job with the
/// identifier moves to the completed jobs; nothing else changes.
pub open spec fn spec_move_completed(s: MachineStateView, id: Seq<char>) -> MachineStateView {
    match job_index(s.job_queue, id) {
        Some(i) => MachineStateView {
            job_queue: s.job_queue.remove(i),
            completed_jobs: s.completed_jobs.push(s.job_queue[i]),
            ..s
        },
        None => s,
    }
}

/// The state after the confirmations `ids`, in order.
pub open spec fn spec_apply_completions(s: MachineStateView, ids: Seq<Seq<char>>) -> MachineStateView
    decreases ids.len(),
{
    if ids.len() == 0 {
        s
    } else {
        spec_move_completed(spec_apply_completions(s, ids.drop_last()), ids.last())
    }
}

/// Process the `CompleteJob` calls received since the last sync, in order.
pub fn apply_completions(state: &mut MachineState, ids: &Vec<String>)
    ensures
        final(state)@ == spec_apply_completions(old(state)@, ids@.map_values(|s: String| s@)),
{
    let ghost idv = ids@.map_values(|s: String| s@);
    let mut i: usize = 0;
    while i < ids.len()
        invariant
            0 <= i <= ids@.len(),
            idv == ids@.map_values(|s: String| s@),
            state@ == spec_apply_completions(old(state)@, idv.take(i as int)),
        decreases ids.len() - i,
    {
        let ghost before = state@;
        match state.find_queued(ids[i].as_str()) {
            Some(pos) => {
                proof {
                    lemma_job_index(before.job_queue, ids@[i as int]@);
                }
                let job = state.job_queue.remove(pos);
                state.completed_jobs.push(job);
                assert(state@.job_queue =~= before.job_queue.remove(pos as int));
                assert(state@.completed_jobs =~= before.completed_jobs.push(before.job_queue[pos as int]));
            },
            None => {},
        }
        proof {
            assert(idv.take(i + 1).drop_last() =~= idv.take(i as int));
            assert(idv.take(i + 1).last() == ids@[i as int]@);
        }
        i = i + 1;
    }
    assert(idv.take(ids@.len() as int) =~= idv);
}

/// The values of the OPC UA variables that mirror the machine state (the coil length,
/// a measurement, is added by the program).
pub struct NodeValues {
    pub status: String,
    pub current_job: String,
    pub pieces_produced: u32,
    pub last_error: String,
    pub queue_depth: u32,
    pub completed_count: u32,
    /// The next job for the agent: its identifier, frameset name and CSV path.
    pub pending: Option<(String, String, String)>,
}

/// What the variables show of a state.
pub open spec fn nodes_show(n: NodeValues, s: MachineStateView) -> bool {
    &&& n.status@ == status_name(s.status)
    &&& n.current_job@ == (match s.current_job {
        Some(j) => j,
        None => Seq::empty(),
    })
    &&& n.pieces_produced == s.pieces_produced
    &&& n.last_error@ == s.last_error
    &&& n.queue_depth == s.job_queue.len() as u32
    &&& n.completed_count == s.completed_jobs.len() as u32
    &&& match n.pending {
        Some((id, name, path)) => s.job_queue.len() > 0 && id@ == s.job_queue[0].id && name@
            == s.job_queue[0].frameset_name && path@ == s.job_queue[0].csv_path,
        None => s.job_queue.len() == 0,
    }
}

/// What the variables show of a state, field by field: `Machine/CurrentJob` is the name
/// of the current job when there is one and empty otherwise; the counters are the
/// numbers of queued and completed jobs (while they fit in a `u32`); the pending-job variables describe the head of
/// the queue, and are empty exactly when nothing is queued.
pub proof fn lemma_nodes_show_state(n: NodeValues, s: MachineStateView)
    requires
        nodes_show(n, s),
    ensures
        s.current_job matches Some(j) ==> n.current_job@ == j,
        s.current_job is None ==> n.current_job@.len() == 0,
        s.job_queue.len() <= u32::MAX ==> n.queue_depth == s.job_queue.len(),
        s.completed_jobs.len() <= u32::MAX ==> n.completed_count == s.completed_jobs.len(),
        n.pending is None <==> s.job_queue.len() == 0,
        n.pending matches Some((id, name, path)) ==> id@ == s.job_queue[0].id && name@
            == s.job_queue[0].frameset_name && path@ == s.job_queue[0].csv_path,
{
}

/// The values the OPC UA variables take for the current state.
pub fn node_values(state: &MachineState) -> (n: NodeValues)
    ensures
        nodes_show(n, state@),
        state@.current_job matches Some(j) ==> n.current_job@ == j,
        state@.current_job is None ==> n.current_job@.len() == 0,
        n.status@ == status_name(state@.status),
{
    let pending = if state.job_queue.len() > 0 {
        let j = &state.job_queue[0];
        assert(state@.job_queue[0] == j@);
        Some((owned(j.id.as_str()), owned(j.frameset_name.as_str()), owned(j.csv_path.as_str())))
    } else {
        None
    };
    NodeValues {
        status: owned(state.status.as_str()),
        current_job: match &state.current_job {
            Some(j) => owned(j.as_str()),
            None => String::new(),
        },
        pieces_produced: state.pieces_produced,
        last_error: owned(state.last_error.as_str()),
        queue_depth: state.job_queue.len() as u32,
        completed_count: state.completed_jobs.len() as u32,
        pending,
    }
}

/// The first position of `uri` among the values of a namespace array (non-string
/// entries are `None`).
pub open spec fn spec_namespace_index_from(values: Seq<Option<Seq<char>>>, uri: Seq<char>, i: int) -> Option<int>
    decreases values.len() - i,
{
    if i < 0 || i >= values.len() {
        None
    } else if values[i] == Some(uri) {
        Some(i)
    } else {
        spec_namespace_index_from(values, uri, i + 1)
    }
}

pub open spec fn opt_seq_view(values: Seq<Option<String>>) -> Seq<Option<Seq<char>>> {
    values.map_values(|v: Option<String>| crate::http::opt_view(v))
}

/// The namespace index of `uri` in the server's namespace array, `None` when absent
/// (the index is taken modulo 2^16, as OPC UA indices are 16-bit).
pub fn namespace_index(values: &Vec<Option<String>>, uri: &str) -> (r: Option<u16>)
    ensures
        match spec_namespace_index_from(opt_seq_view(values@), uri@, 0) {
            Some(i) => r == Some(i as u16),
            None => r is None,
        },
{
    let ghost vs = opt_seq_view(values@);
    let mut i: usize = 0;
    while i < values.len()
        invariant
            0 <= i <= values@.len(),
            vs == opt_seq_view(values@),
            spec_namespace_index_from(vs, uri@, 0) == spec_namespace_index_from(vs, uri@, i as int),
        decreases values.len() - i,
    {
        assert(vs[i as int] == crate::http::opt_view(values@[i as int]));
        match &values[i] {
            Some(s) => {
                if crate::text::str_eq(s.as_str(), uri) {
                    return Some(i as u16);
                }
            },
            None => {},
        }
        i = i + 1;
    }
    None
}

/// The namespace index to use for `uri`: its index in the server's array, else 2 (the
/// first custom namespace after the OPC UA and server namespaces).
pub fn resolve_namespace(values: &Vec<Option<String>>, uri: &str) -> (ns: u16)
    ensures
        ns == (match spec_namespace_index_from(opt_seq_view(values@), uri@, 0) {
            Some(i) => i as u16,
            None => 2,
        }),
{
    match namespace_index(values, uri) {
        Some(i) => i,
        None => 2,
    }
}

/// The job announced by a change of `Jobs/PendingJobId`: the new value when it is a
/// non-empty string (`None` is a missing or non-string value, `Some(None)` a null string).
pub fn announced_job(value: Option<Option<String>>) -> (r: Option<String>)
    ensures
        match spec_complete_job_argument(opt_opt_view(value)) {
            Ok(id) => r matches Some(s) && s@ == id,
            Err(_) => r is None,
        },
{
    match complete_job_argument(value) {
        Ok(id) => Some(id),
        Err(_) => None,
    }
}

/// The file to write for a job read over OPC UA: `{frameset}.csv`, or none while the
/// server has not published the CSV yet.
pub fn delivery_file(frameset_name: &str, csv: &str) -> (r: Option<String>)
    ensures
        csv@.len() == 0 ==> r is None,
        csv@.len() > 0 ==> (r matches Some(n) && n@ == frameset_name@ + ".csv"@),
{
    if csv.is_empty() {
        None
    } else {
        let mut n = owned(frameset_name);
        push_str(&mut n, ".csv");
        Some(n)
    }
}

/// A job read over OPC UA was written to `csv_path` and confirmed at time `now`.
pub fn record_opcua_delivery(state: &mut MachineState, job_id: String, frameset_name: String, csv_path: String, now: u128)
    ensures
        final(state)@ == spec_record_delivery(
            old(state)@,
            JobView { id: job_id@, frameset_name: frameset_name@, csv_path: csv_path@, submitted_at: now },
        ),
{
    let job = Job::new(job_id, frameset_name, csv_path, now);
    state.record_delivery(job);
}

/// The server's own application URI, distinct from the machine namespace URI.
pub fn server_application_uri(namespace_uri: &str) -> (u: String)
    ensures
        u@ == namespace_uri@ + "-server"@,
{
    let mut u = owned(namespace_uri);
    push_str(&mut u, "-server");
    u
}

/// The endpoint URL that clients are told to use: the given discovery URL, or
/// `opc.tcp://127.0.0.1:{port}/`.
pub fn endpoint_url(discovery_url: Option<String>, port: u16) -> (u: String)
    ensures
        u@ == (match discovery_url {
            Some(d) => d@,
            None => "opc.tcp://127.0.0.1:"@ + spec_decimal(port as nat) + "/"@,
        }),
{
    match discovery_url {
        Some(d) => d,
        None => {
            let mut u = owned("opc.tcp://127.0.0.1:");
            push_str(&mut u, decimal(port as u128).as_str());
            push_str(&mut u, "/");
            u
        },
    }
}

// ───────────────────────────── laws ─────────────────────────────

/// Confirmations over OPC UA never lose or invent a job: queued and completed jobs
/// together keep their number.
pub proof fn lemma_completions_conserve_jobs(s: MachineStateView, ids: Seq<Seq<char>>)
    ensures
        spec_apply_completions(s, ids).job_queue.len() + spec_apply_completions(s, ids).completed_jobs.len()
            == s.job_queue.len() + s.completed_jobs.len(),
        spec_apply_completions(s, ids).status == s.status,
        spec_apply_completions(s, ids).current_job == s.current_job,
    decreases ids.len(),
{
    if ids.len() > 0 {
        lemma_completions_conserve_jobs(s, ids.drop_last());
        lemma_job_index(spec_apply_completions(s, ids.drop_last()).job_queue, ids.last());
    }
}

} // verus!
