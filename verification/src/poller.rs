//! The job poller: the agent asks the backend for pending jobs, writes each CSV to the
//! machine input directory and marks it complete on the backend.
//!
//! The requests and the file writes happen in the program; the URLs, the credentials
//! header, the file names and the state changes are decided here.
use vstd::prelude::*;

use crate::machine::{Job, JobView, MachineState, MachineStateView, spec_record_delivery};
use crate::text::{owned, push_str, trim_end_char};

verus! {

/// A job the backend has pending for the machine.
pub struct PendingJob {
    pub job_id: String,
    pub frameset_name: String,
    pub csv: String,
}

/// The backend URL without trailing slashes.
pub fn base_url(url: &str) -> (b: String)
    ensures
        b@ == trim_end_char(url@, '/'),
{
    let v = crate::text::chars_of(url);
    let mut e = v.len();
    assert(v@.take(e as int) =~= v@);
    while e > 0 && v[e - 1] == '/'
        invariant
            0 <= e <= v@.len(),
            trim_end_char(v@.take(e as int), '/') == trim_end_char(v@, '/'),
        decreases e,
    {
        assert(v@.take(e as int).drop_last() =~= v@.take(e - 1));
        e = e - 1;
    }
    crate::text::string_of_range(&v, 0, e)
}

/// The endpoint that lists the pending jobs.
pub fn pending_url(base: &str) -> (u: String)
    ensures
        u@ == base@ + "/api/jobs/howick/pending"@,
{
    let mut u = owned(base);
    push_str(&mut u, "/api/jobs/howick/pending");
    u
}

/// The endpoint that marks the job `job_id` complete.
pub fn complete_url(base: &str, job_id: &str) -> (u: String)
    ensures
        u@ == base@ + "/api/jobs/howick/"@ + job_id@ + "/complete"@,
{
    let mut u = owned(base);
    push_str(&mut u, "/api/jobs/howick/");
    push_str(&mut u, job_id);
    push_str(&mut u, "/complete");
    u
}

/// The `Authorization` header value for an API key: `Bearer {key}`, none for an empty key.
pub fn bearer_header(api_key: &str) -> (h: Option<String>)
    ensures
        match h {
            Some(v) => api_key@.len() > 0 && v@ == "Bearer "@ + api_key@,
            None => api_key@.len() == 0,
        },
{
    if api_key.is_empty() {
        None
    } else {
        let mut v = owned("Bearer ");
        push_str(&mut v, api_key);
        Some(v)
    }
}

/// The name of the CSV file written for a frameset: `{frameset}.csv`.
pub fn job_file_name(frameset_name: &str) -> (n: String)
    ensures
        n@ == frameset_name@ + ".csv"@,
{
    let mut n = owned(frameset_name);
    push_str(&mut n, ".csv");
    n
}

/// A pending job was written to `csv_path` at time `now`: record it as delivered.
pub fn record_polled_job(state: &mut MachineState, job: &PendingJob, csv_path: String, now: u128)
    ensures
        final(state)@ == spec_record_delivery(
            old(state)@,
            JobView {
                id: job.job_id@,
                frameset_name: job.frameset_name@,
                csv_path: csv_path@,
                submitted_at: now,
            },
        ),
{
    let delivered = Job::new(owned(job.job_id.as_str()), owned(job.frameset_name.as_str()), csv_path, now);
    state.record_delivery(delivered);
}

} // verus!
