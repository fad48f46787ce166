//! The in-memory job queue and its single-flight dispatch discipline:
//! jobs are admitted in arrival order, at most one executes at a time,
//! and the queue view prepends the job currently executing.

use vstd::prelude::*;
use std::collections::VecDeque;
use crate::job::Job;
use crate::scan_job::ScanJob;

verus! {

/// The FIFO dispatch queue: not-yet-dispatched jobs in arrival order, the
/// single-flight busy flag, and the identifier of the job currently
/// executing, kept for observability.
pub struct JobQueue {
    queue: VecDeque<Job>,
    processing: bool,
    processing_job_id: Option<u128>,
}

/// One admission: the job goes to the tail.
pub open spec fn spec_enqueue(queue: Seq<Job>, job: Job) -> Seq<Job> {
    queue.push(job)
}

/// One dispatch attempt: with the system busy or the queue empty nothing
/// changes and no job is handed out; otherwise the head leaves the queue,
/// the system becomes busy, and the head is handed out for execution.
pub open spec fn spec_notify_begin(queue: Seq<Job>, busy: bool) -> (Seq<Job>, bool, Option<Job>) {
    if busy || queue.len() == 0 {
        (queue, busy, None)
    } else {
        (queue.skip(1), true, Some(queue[0]))
    }
}

impl JobQueue {
    /// The queued (not yet dispatched) jobs, in arrival order.
    pub closed spec fn spec_queue(self) -> Seq<Job> {
        self.queue@
    }

    /// Whether a job is currently executing.
    pub closed spec fn spec_processing(self) -> bool {
        self.processing
    }

    /// The identifier of the currently executing job, if any.
    pub closed spec fn spec_processing_job_id(self) -> Option<u128> {
        self.processing_job_id
    }

    /// The busy flag and the recorded executing job rise and fall
    /// together.
    pub open spec fn wf(self) -> bool {
        self.spec_processing() <==> self.spec_processing_job_id() is Some
    }

    /// An empty queue with nothing executing.
    pub fn new() -> (r: JobQueue)
        ensures
            r.spec_queue() == Seq::<Job>::empty(),
            !r.spec_processing(),
            r.spec_processing_job_id() is None,
            r.wf(),
    {
        JobQueue { queue: VecDeque::new(), processing: false, processing_job_id: None }
    }

    /// Append a job to the tail. Admission never rejects and never waits.
    pub fn push(&mut self, job: Job)
        ensures
            final(self).spec_queue() == spec_enqueue(old(self).spec_queue(), job),
            final(self).spec_processing() == old(self).spec_processing(),
            final(self).spec_processing_job_id() == old(self).spec_processing_job_id(),
            old(self).wf() ==> final(self).wf(),
    {
        self.queue.push_back(job);
    }

    /// How many jobs wait in the queue.
    pub fn len(&self) -> (r: usize)
        ensures
            r == self.spec_queue().len(),
    {
        self.queue.len()
    }

    /// Whether the queue is empty.
    pub fn is_empty(&self) -> (r: bool)
        ensures
            r == (self.spec_queue().len() == 0),
    {
        self.queue.len() == 0
    }

    /// Whether a job is currently executing.
    pub fn is_processing(&self) -> (r: bool)
        ensures
            r == self.spec_processing(),
    {
        self.processing
    }

    /// One dispatch attempt, as [`spec_notify_begin`] describes: the next
    /// job is handed out only when none is executing, so no two jobs ever
    /// execute at once. On an empty queue this is a no-op, however often
    /// it is called.
    pub fn notify_begin(&mut self) -> (r: Option<Job>)
        ensures
            ({
                let (q2, b2, out) = spec_notify_begin(
                    old(self).spec_queue(),
                    old(self).spec_processing(),
                );
                &&& final(self).spec_queue() == q2
                &&& final(self).spec_processing() == b2
                &&& r == out
                &&& match out {
                    Some(j) => final(self).spec_processing_job_id() == Some(j.spec_id()),
                    None => final(self).spec_processing_job_id() == old(
                        self,
                    ).spec_processing_job_id(),
                }
            }),
            old(self).wf() ==> final(self).wf(),
    {
        if self.processing {
            return None;
        }
        match self.queue.pop_front() {
            Some(job) => {
                self.processing = true;
                self.processing_job_id = Some(job.id());
                Some(job)
            },
            None => None,
        }
    }

    /// The end of one execution: the system is free again and no job is
    /// recorded as executing.
    pub fn notify_end(&mut self)
        ensures
            final(self).spec_queue() == old(self).spec_queue(),
            !final(self).spec_processing(),
            final(self).spec_processing_job_id() is None,
            final(self).wf(),
    {
        self.processing = false;
        self.processing_job_id = None;
    }

    /// The queue as observers see it: the queued jobs in order, with the
    /// currently executing job (re-fetched from the store by the caller)
    /// prepended.
    pub fn get_current_queue(&self, fetched: Option<Job>) -> (r: Vec<Job>)
        ensures
            r@ == match (self.spec_processing_job_id(), fetched) {
                (Some(_), Some(j)) => seq![j] + self.spec_queue(),
                _ => self.spec_queue(),
            },
    {
        let mut out: Vec<Job> = Vec::new();
        let prepend = match (&self.processing_job_id, fetched) {
            (Some(_), Some(j)) => Some(j),
            _ => None,
        };
        let ghost mut prepended = self.spec_queue();
        match prepend {
            Some(j) => {
                proof {
                    prepended = seq![j] + self.spec_queue();
                }
                out.push(j);
            },
            None => {},
        }
        let ghost base = out@.len() as int;
        let mut i: usize = 0;
        while i < self.queue.len()
            invariant
                0 <= i <= self.queue@.len(),
                out@.len() == base + i,
                base + self.queue@.len() == prepended.len(),
                forall|k: int| 0 <= k < self.queue@.len() ==> prepended[base + k]
                    == self.queue@[k],
                forall|k: int| 0 <= k < out@.len() ==> out@[k] == prepended[k],
            decreases self.queue@.len() - i,
        {
            let j = self.queue[i].duplicate();
            proof {
                assert(prepended[base + i] == self.queue@[i as int]);
            }
            out.push(j);
            i += 1;
        }
        proof {
            assert(out@ =~= prepended);
        }
        out
    }
}

/// Append a job to the dispatch queue.
pub fn add_to_job_queue(job_queue: &mut JobQueue, job: Job)
    ensures
        final(job_queue).spec_queue() == spec_enqueue(old(job_queue).spec_queue(), job),
        final(job_queue).spec_processing() == old(job_queue).spec_processing(),
        final(job_queue).spec_processing_job_id() == old(job_queue).spec_processing_job_id(),
        old(job_queue).wf() ==> final(job_queue).wf(),
{
    job_queue.push(job);
}

/// Enqueueing jobs one after another appends them in exactly that order.
pub open spec fn spec_enqueue_all(queue: Seq<Job>, jobs: Seq<Job>) -> Seq<Job>
    decreases jobs.len(),
{
    if jobs.len() == 0 {
        queue
    } else {
        spec_enqueue_all(spec_enqueue(queue, jobs[0]), jobs.skip(1))
    }
}

/// First-in first-out admission: for every sequence of enqueue calls, the
/// queue — and with it the observed queue view, while nothing has been
/// dispatched — holds the jobs in exactly the order they were enqueued,
/// with no duplication.
pub proof fn lemma_fifo_order(queue: Seq<Job>, jobs: Seq<Job>)
    ensures
        spec_enqueue_all(queue, jobs) == queue + jobs,
    decreases jobs.len(),
{
    if jobs.len() == 0 {
        assert(queue + jobs =~= queue);
    } else {
        lemma_fifo_order(queue.push(jobs[0]), jobs.skip(1));
        assert(queue.push(jobs[0]) + jobs.skip(1) =~= queue + jobs);
    }
}

/// Single-flight dispatch: while the system is busy a dispatch attempt
/// hands out nothing, and once an attempt has handed out a job, a second
/// attempt hands out nothing until the first execution ends.
pub proof fn lemma_single_flight(queue: Seq<Job>, busy: bool)
    ensures
        busy ==> spec_notify_begin(queue, busy).2 is None,
        ({
            let (q2, b2, out) = spec_notify_begin(queue, busy);
            out is Some ==> spec_notify_begin(q2, b2).2 is None
        }),
{
}

/// Repeated dispatch attempts.
pub open spec fn spec_notify_iter(queue: Seq<Job>, busy: bool, n: nat) -> (Seq<Job>, bool)
    decreases n,
{
    if n == 0 {
        (queue, busy)
    } else {
        let (q2, b2, _) = spec_notify_begin(queue, busy);
        spec_notify_iter(q2, b2, (n - 1) as nat)
    }
}

/// Idempotence on an empty queue: any number of dispatch attempts on an
/// empty queue leaves the queue and the busy flag exactly as they were.
/// No counter is bumped either, so the polling cursor emits no snapshot
/// for such attempts.
pub proof fn lemma_notify_idempotent_on_empty(queue: Seq<Job>, busy: bool, n: nat)
    requires
        queue.len() == 0,
    ensures
        spec_notify_iter(queue, busy, n) == (queue, busy),
    decreases n,
{
    if n > 0 {
        lemma_notify_idempotent_on_empty(queue, busy, (n - 1) as nat);
    }
}

/// The recursive drain on a two-job queue: one outer trigger dispatches
/// the first job; when its execution ends the drain picks up the second;
/// when that ends too the queue is empty and a further attempt is a
/// no-op — both jobs execute, in enqueue order.
pub proof fn lemma_drain_two(a: Job, b: Job)
    ensures
        ({
            let q0 = seq![a, b];
            let (q1, b1, out1) = spec_notify_begin(q0, false);
            let (q2, b2, out2) = spec_notify_begin(q1, false);
            let (q3, b3, out3) = spec_notify_begin(q2, false);
            &&& out1 == Some(a)
            &&& out2 == Some(b)
            &&& q2 == Seq::<Job>::empty()
            &&& out3 is None
        }),
{
    let q0 = seq![a, b];
    assert(q0.skip(1) =~= seq![b]);
    assert(seq![b].skip(1) =~= Seq::<Job>::empty());
}

/// The scan-only queue used by the scan submission path: the same FIFO
/// and single-flight discipline over scan jobs alone.
pub struct ScanJobQueue {
    queue: VecDeque<ScanJob>,
    processing: bool,
}

impl ScanJobQueue {
    /// The queued scan jobs, in arrival order.
    pub closed spec fn spec_queue(self) -> Seq<ScanJob> {
        self.queue@
    }

    /// Whether a scan is currently executing.
    pub closed spec fn spec_processing(self) -> bool {
        self.processing
    }

    /// An empty queue with nothing executing.
    pub fn new() -> (r: ScanJobQueue)
        ensures
            r.spec_queue() == Seq::<ScanJob>::empty(),
            !r.spec_processing(),
    {
        ScanJobQueue { queue: VecDeque::new(), processing: false }
    }

    /// Append a scan job to the tail.
    pub fn push(&mut self, job: ScanJob)
        ensures
            final(self).spec_queue() == old(self).spec_queue().push(job),
            final(self).spec_processing() == old(self).spec_processing(),
    {
        self.queue.push_back(job);
    }

    /// How many scan jobs wait in the queue.
    pub fn len(&self) -> (r: usize)
        ensures
            r == self.spec_queue().len(),
    {
        self.queue.len()
    }

    /// Whether the queue is empty.
    pub fn is_empty(&self) -> (r: bool)
        ensures
            r == (self.spec_queue().len() == 0),
    {
        self.queue.len() == 0
    }

    /// Whether a scan is currently executing.
    pub fn is_processing(&self) -> (r: bool)
        ensures
            r == self.spec_processing(),
    {
        self.processing
    }

    /// One dispatch attempt: the head is handed out only when the queue
    /// is non-empty and nothing is executing.
    pub fn notify_begin(&mut self) -> (r: Option<ScanJob>)
        ensures
            old(self).spec_processing() || old(self).spec_queue().len() == 0 ==> r is None
                && final(self).spec_queue() == old(self).spec_queue()
                && final(self).spec_processing() == old(self).spec_processing(),
            !old(self).spec_processing() && old(self).spec_queue().len() > 0 ==> r
                == Some(old(self).spec_queue()[0])
                && final(self).spec_queue() == old(self).spec_queue().skip(1)
                && final(self).spec_processing(),
    {
        if self.processing {
            return None;
        }
        match self.queue.pop_front() {
            Some(job) => {
                self.processing = true;
                Some(job)
            },
            None => None,
        }
    }

    /// The end of one execution.
    pub fn notify_end(&mut self)
        ensures
            final(self).spec_queue() == old(self).spec_queue(),
            !final(self).spec_processing(),
    {
        self.processing = false;
    }
}

/// Append a scan job to the scan queue.
pub fn add_to_scan_queue(s_queue: &mut ScanJobQueue, scan_job: ScanJob)
    ensures
        final(s_queue).spec_queue() == old(s_queue).spec_queue().push(scan_job),
        final(s_queue).spec_processing() == old(s_queue).spec_processing(),
{
    s_queue.push(scan_job);
}

} // verus!
