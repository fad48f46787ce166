//! The job sum type over the scan and print variants, and the pure
//! transitions the dispatcher drives a job through around each device
//! call: begin, success, failure, cancellation, and the monitoring steps
//! of a submitted print job.

use vstd::prelude::*;
use vstd::string::*;
use crate::clock::MAX_TIMESTAMP_MS;
use crate::print_job::PrintJob;
use crate::scan_job::{ScanJob};
use crate::status::{
    map_backend_status, print_terminal, spec_map_backend_status, PrintJobStatus, ScanJobStatus,
};
use crate::text::str_eq;

verus! {

/// A unit of work: one scan or one print request.
pub enum Job {
    Scan(ScanJob),
    Print(PrintJob),
}

impl Job {
    /// The job's identifier.
    pub open spec fn spec_id(self) -> u128 {
        match self {
            Job::Scan(sj) => sj.id,
            Job::Print(pj) => pj.id,
        }
    }

    /// The job's identifier.
    pub fn id(&self) -> (r: u128)
        ensures
            r == self.spec_id(),
    {
        match self {
            Job::Scan(sj) => sj.id,
            Job::Print(pj) => pj.id,
        }
    }

    /// When the job completed, if it has.
    pub open spec fn spec_completed_at(self) -> Option<i64> {
        match self {
            Job::Scan(sj) => sj.completed_at,
            Job::Print(pj) => pj.completed_at,
        }
    }

    /// When the job completed, if it has.
    pub fn completed_at(&self) -> (r: Option<i64>)
        ensures
            r == self.spec_completed_at(),
    {
        match self {
            Job::Scan(sj) => sj.completed_at,
            Job::Print(pj) => pj.completed_at,
        }
    }

    /// A field-for-field copy.
    pub fn duplicate(&self) -> (r: Job)
        ensures
            r == *self,
    {
        match self {
            Job::Scan(sj) => Job::Scan(sj.duplicate()),
            Job::Print(pj) => Job::Print(pj.duplicate()),
        }
    }
}

/// Mark a scan job as having entered the scanner: the in-progress status
/// that stamps `started_at`.
pub fn scan_begin_at(job: &mut ScanJob, now: i64)
    requires
        0 <= now <= MAX_TIMESTAMP_MS,
    ensures
        *final(job) == old(job).spec_set_status(ScanJobStatus::Scanning, now),
        final(job).status == ScanJobStatus::Scanning,
{
    job.set_status_at(ScanJobStatus::Scanning, now);
}

/// The successful end of a scan: the observed output size, when the file
/// could be inspected, is recorded before the job completes.
pub open spec fn spec_scan_success(j: ScanJob, observed_size: Option<u64>, now: i64) -> ScanJob {
    let with_meta = match observed_size {
        Some(s) => ScanJob { file_size: Some(s), file_available: true, ..j },
        None => j,
    };
    with_meta.spec_set_status(ScanJobStatus::Completed, now)
}

/// Complete a scan job, recording the observed output size when there is
/// one.
pub fn scan_success_at(job: &mut ScanJob, observed_size: Option<u64>, now: i64)
    requires
        0 <= now <= MAX_TIMESTAMP_MS,
    ensures
        *final(job) == spec_scan_success(*old(job), observed_size, now),
        final(job).status == ScanJobStatus::Completed,
        final(job).completed_at is Some,
{
    match observed_size {
        Some(s) => {
            job.file_size = Some(s);
            job.file_available = true;
        },
        None => {},
    }
    job.set_status_at(ScanJobStatus::Completed, now);
}

/// Fail a scan job, recording the device error.
pub fn scan_failure_at(job: &mut ScanJob, error: String, now: i64)
    requires
        0 <= now <= MAX_TIMESTAMP_MS,
    ensures
        *final(job) == old(job).spec_set_error(error, now),
        final(job).status == ScanJobStatus::Failed,
        final(job).error_message == Some(error),
        final(job).completed_at is Some,
{
    job.set_error_at(error, now);
}

/// A print submission that was accepted: the backend handle is recorded
/// and the job enters `Processing`, which stamps `started_at`.
pub open spec fn spec_print_submit_success(j: PrintJob, cups_job_id: i32, now: i64) -> PrintJob {
    (PrintJob { cups_job_id: Some(cups_job_id), ..j }).spec_set_status(
        PrintJobStatus::Processing,
        now,
    )
}

/// Record an accepted print submission.
pub fn print_submit_success_at(job: &mut PrintJob, cups_job_id: i32, now: i64)
    requires
        0 <= now <= MAX_TIMESTAMP_MS,
    ensures
        *final(job) == spec_print_submit_success(*old(job), cups_job_id, now),
        final(job).status == PrintJobStatus::Processing,
        final(job).cups_job_id == Some(cups_job_id),
{
    job.set_cups_job_id(cups_job_id);
    job.set_status_at(PrintJobStatus::Processing, now);
}

/// Fail a print job whose submission was rejected, recording the device
/// error. The staged input file is removed by the caller afterwards.
pub fn print_submit_failure_at(job: &mut PrintJob, error: String, now: i64)
    requires
        0 <= now <= MAX_TIMESTAMP_MS,
    ensures
        *final(job) == old(job).spec_set_error(error, now),
        final(job).status == PrintJobStatus::Failed,
        final(job).error_message == Some(error),
        final(job).completed_at is Some,
{
    job.set_error_at(error, now);
}

/// Force a print job to `Cancelled` locally, whatever the remote cancel
/// returned: cancellation is always honored locally.
pub fn cancel_locally_at(job: &mut PrintJob, now: i64)
    requires
        0 <= now <= MAX_TIMESTAMP_MS,
    ensures
        *final(job) == old(job).spec_set_status(PrintJobStatus::Cancelled, now),
        final(job).status == PrintJobStatus::Cancelled,
        final(job).completed_at is Some,
{
    job.set_status_at(PrintJobStatus::Cancelled, now);
}

/// Print statuses that count as actively printing for the status
/// summary.
pub open spec fn spec_print_active(j: PrintJob) -> bool {
    j.status == PrintJobStatus::Printing || j.status == PrintJobStatus::Processing
}

/// Scan statuses that count as actively scanning for the status summary.
pub open spec fn spec_scan_active(j: ScanJob) -> bool {
    j.status == ScanJobStatus::Scanning || j.status == ScanJobStatus::Processing
}

/// How many of the given print jobs are actively printing.
pub open spec fn spec_count_active_prints(s: Seq<PrintJob>) -> nat
    decreases s.len(),
{
    if s.len() == 0 {
        0
    } else {
        spec_count_active_prints(s.drop_last()) + if spec_print_active(s.last()) {
            1nat
        } else {
            0nat
        }
    }
}

/// How many of the given scan jobs are actively scanning.
pub open spec fn spec_count_active_scans(s: Seq<ScanJob>) -> nat
    decreases s.len(),
{
    if s.len() == 0 {
        0
    } else {
        spec_count_active_scans(s.drop_last()) + if spec_scan_active(s.last()) {
            1nat
        } else {
            0nat
        }
    }
}

/// Count the actively printing jobs for the status summary.
pub fn count_active_prints(jobs: &Vec<PrintJob>) -> (r: usize)
    ensures
        r == spec_count_active_prints(jobs@),
{
    let mut count: usize = 0;
    let mut i: usize = 0;
    proof {
        assert(jobs@.take(0) =~= Seq::<PrintJob>::empty());
    }
    while i < jobs.len()
        invariant
            0 <= i <= jobs@.len(),
            count == spec_count_active_prints(jobs@.take(i as int)),
            count <= i,
        decreases jobs@.len() - i,
    {
        let active = match jobs[i].status {
            PrintJobStatus::Printing | PrintJobStatus::Processing => true,
            _ => false,
        };
        proof {
            assert(jobs@.take(i + 1).drop_last() =~= jobs@.take(i as int));
            assert(jobs@.take(i + 1).last() == jobs@[i as int]);
        }
        if active {
            count += 1;
        }
        i += 1;
    }
    proof {
        assert(jobs@.take(jobs@.len() as int) =~= jobs@);
    }
    count
}

/// Count the actively scanning jobs for the status summary.
pub fn count_active_scans(jobs: &Vec<ScanJob>) -> (r: usize)
    ensures
        r == spec_count_active_scans(jobs@),
{
    let mut count: usize = 0;
    let mut i: usize = 0;
    proof {
        assert(jobs@.take(0) =~= Seq::<ScanJob>::empty());
    }
    while i < jobs.len()
        invariant
            0 <= i <= jobs@.len(),
            count == spec_count_active_scans(jobs@.take(i as int)),
            count <= i,
        decreases jobs@.len() - i,
    {
        let active = match jobs[i].status {
            ScanJobStatus::Scanning | ScanJobStatus::Processing => true,
            _ => false,
        };
        proof {
            assert(jobs@.take(i + 1).drop_last() =~= jobs@.take(i as int));
            assert(jobs@.take(i + 1).last() == jobs@[i as int]);
        }
        if active {
            count += 1;
        }
        i += 1;
    }
    proof {
        assert(jobs@.take(jobs@.len() as int) =~= jobs@);
    }
    count
}

/// The bounded monitor of a submitted print job: the last status string
/// the backend reported, and how many polls remain of the fixed budget.
pub struct MonitorState {
    pub last_status: String,
    pub polls_left: u32,
}

/// How many times the monitor polls the backend before giving up.
pub const MONITOR_POLL_BUDGET: u32 = 60;

impl MonitorState {
    /// A fresh monitor with the full poll budget and no status seen yet.
    pub fn new() -> (r: MonitorState)
        ensures
            r.polls_left == MONITOR_POLL_BUDGET,
            r.last_status@ == Seq::<char>::empty(),
    {
        MonitorState { last_status: String::new(), polls_left: MONITOR_POLL_BUDGET }
    }

    /// Consume one poll that reported `reported`. A repeated status
    /// changes nothing; a new one is mapped onto the local status and
    /// applied to the job. Monitoring is done when the mapped status is
    /// terminal or the budget is exhausted.
    pub fn observe(&mut self, job: &mut PrintJob, reported: &str, now: i64) -> (done: bool)
        requires
            0 <= now <= MAX_TIMESTAMP_MS,
            old(self).polls_left > 0,
        ensures
            final(self).polls_left == old(self).polls_left - 1,
            reported@ == old(self).last_status@ ==> *final(job) == *old(job)
                && final(self).last_status == old(self).last_status
                && done == (final(self).polls_left == 0),
            reported@ != old(self).last_status@ ==> final(self).last_status@ == reported@
                && *final(job) == old(job).spec_set_status(spec_map_backend_status(reported@), now)
                && done == (print_terminal(spec_map_backend_status(reported@))
                || final(self).polls_left == 0),
    {
        self.polls_left = self.polls_left - 1;
        if str_eq(reported, self.last_status.as_str()) {
            self.polls_left == 0
        } else {
            self.last_status = String::from_str(reported);
            let mapped = map_backend_status(reported);
            job.set_status_at(mapped, now);
            let terminal = crate::status::is_print_terminal(mapped);
            terminal || self.polls_left == 0
        }
    }
}

} // verus!
