//! The dispatcher: FIFO order, single-flight execution, idempotent
//! triggering on an empty queue, and the drain scenarios.

use print_scan_manager::job::{
    cancel_locally_at, print_submit_failure_at, print_submit_success_at, scan_begin_at,
    scan_success_at, Job, MonitorState, MONITOR_POLL_BUDGET,
};
use print_scan_manager::print_job::{PrintJob, PrintRequest};
use print_scan_manager::queue::{add_to_job_queue, add_to_scan_queue, JobQueue, ScanJobQueue};
use print_scan_manager::scan_job::{ScanJob, ScanRequest};
use print_scan_manager::status::{PrintJobStatus, ScanJobStatus};

fn sample_scan(filename: &str) -> ScanJob {
    ScanJob::new(
        "epson2:libusb:001:002".to_string(),
        "Epson".to_string(),
        "L3110".to_string(),
        ScanRequest {
            scanner: None,
            resolution: None,
            format: None,
            color_mode: None,
            page_size: None,
            brightness: None,
            contrast: None,
            filename: Some(filename.to_string()),
        },
    )
}

fn sample_print(filename: &str) -> PrintJob {
    PrintJob::new(
        filename.to_string(),
        "EPSON_L3110_Series".to_string(),
        "Epson".to_string(),
        "L3110 Series".to_string(),
        PrintRequest {
            printer: None,
            copies: None,
            pages: None,
            duplex: None,
            color: None,
            page_size: None,
        },
    )
}

#[test]
fn enqueue_keeps_fifo_order() {
    let mut q = JobQueue::new();
    let a = sample_scan("a.png");
    let b = sample_print("b.pdf");
    let c = sample_scan("c.png");
    let ids = [a.id, b.id, c.id];
    add_to_job_queue(&mut q, Job::Scan(a));
    add_to_job_queue(&mut q, Job::Print(b));
    add_to_job_queue(&mut q, Job::Scan(c));
    assert_eq!(q.len(), 3);
    let view = q.get_current_queue(None);
    let got: Vec<u128> = view.iter().map(|j| j.id()).collect();
    assert_eq!(got, ids.to_vec());
}

#[test]
fn current_queue_prepends_executing_job() {
    let mut q = JobQueue::new();
    let running = sample_scan("r.png");
    let waiting = sample_scan("w.png");
    let running_id = running.id;
    let waiting_id = waiting.id;
    add_to_job_queue(&mut q, Job::Scan(running));
    add_to_job_queue(&mut q, Job::Scan(waiting));
    let picked = q.notify_begin().expect("a job to execute");
    assert_eq!(picked.id(), running_id);
    // The caller re-fetches the executing job from the store and hands
    // it back for display.
    let view = q.get_current_queue(Some(picked));
    let got: Vec<u128> = view.iter().map(|j| j.id()).collect();
    assert_eq!(got, vec![running_id, waiting_id]);
}

#[test]
fn notify_on_empty_queue_is_idempotent() {
    let mut q = JobQueue::new();
    for _ in 0..10 {
        assert!(q.notify_begin().is_none());
        assert_eq!(q.len(), 0);
        assert!(!q.is_processing());
    }
}

#[test]
fn single_flight_blocks_second_dispatch() {
    let mut q = JobQueue::new();
    add_to_job_queue(&mut q, Job::Scan(sample_scan("a.png")));
    add_to_job_queue(&mut q, Job::Scan(sample_scan("b.png")));
    let first = q.notify_begin();
    assert!(first.is_some());
    assert!(q.is_processing());
    // While one job executes, further triggers dispatch nothing.
    assert!(q.notify_begin().is_none());
    assert_eq!(q.len(), 1);
    q.notify_end();
    assert!(q.notify_begin().is_some());
}

#[test]
fn scenario_scan_success() {
    // Scenario A: one scan job enqueued, one trigger, success path.
    let mut q = JobQueue::new();
    let job = sample_scan("s1.png");
    let id = job.id;
    add_to_job_queue(&mut q, Job::Scan(job));
    let picked = q.notify_begin().expect("the scan to execute");
    let mut sj = match picked {
        Job::Scan(sj) => sj,
        Job::Print(_) => panic!("expected the scan job"),
    };
    assert_eq!(sj.id, id);
    let t0 = sj.created_at;
    scan_begin_at(&mut sj, t0 + 100);
    assert!(matches!(sj.status, ScanJobStatus::Scanning));
    scan_success_at(&mut sj, Some(204_800), t0 + 900);
    assert!(matches!(sj.status, ScanJobStatus::Completed));
    assert_eq!(sj.started_at, Some(t0 + 100));
    assert_eq!(sj.completed_at, Some(t0 + 900));
    assert_eq!(sj.file_size, Some(204_800));
    assert!(sj.file_available);
    q.notify_end();
    assert!(q.notify_begin().is_none());
}

#[test]
fn scenario_print_submit_failure_then_drain() {
    // Scenario B: a print job whose submission fails reaches Failed with
    // an error recorded, and the dispatcher still drains the next job.
    let mut q = JobQueue::new();
    let p1 = sample_print("p1.pdf");
    let next = sample_scan("after.png");
    let next_id = next.id;
    add_to_job_queue(&mut q, Job::Print(p1));
    add_to_job_queue(&mut q, Job::Scan(next));
    let picked = q.notify_begin().expect("the print to execute");
    let mut pj = match picked {
        Job::Print(pj) => pj,
        Job::Scan(_) => panic!("expected the print job"),
    };
    let t0 = pj.created_at;
    print_submit_failure_at(&mut pj, "Print job failed: no such printer".to_string(), t0 + 10);
    assert!(matches!(pj.status, PrintJobStatus::Failed));
    let msg = pj.error_message.expect("an error message");
    assert!(!msg.is_empty());
    assert!(pj.completed_at.is_some());
    q.notify_end();
    let follow = q.notify_begin().expect("the drain to continue");
    assert_eq!(follow.id(), next_id);
    q.notify_end();
    assert!(q.notify_begin().is_none());
}

#[test]
fn scenario_two_jobs_drain_in_order() {
    // Scenario C: two jobs enqueued back to back both run to a terminal
    // status through the drain, in enqueue order.
    let mut q = JobQueue::new();
    let s1 = sample_scan("s1.png");
    let p1 = sample_print("p1.pdf");
    let s1_id = s1.id;
    let p1_id = p1.id;
    add_to_job_queue(&mut q, Job::Scan(s1));
    add_to_job_queue(&mut q, Job::Print(p1));

    let mut finished: Vec<u128> = Vec::new();
    loop {
        let picked = match q.notify_begin() {
            Some(j) => j,
            None => break,
        };
        match picked {
            Job::Scan(mut sj) => {
                let t = sj.created_at;
                scan_begin_at(&mut sj, t + 1);
                scan_success_at(&mut sj, Some(1), t + 2);
                assert!(matches!(sj.status, ScanJobStatus::Completed));
                finished.push(sj.id);
            },
            Job::Print(mut pj) => {
                let t = pj.created_at;
                print_submit_success_at(&mut pj, 66, t + 1);
                pj.set_status_at(PrintJobStatus::Completed, t + 2);
                assert!(matches!(pj.status, PrintJobStatus::Completed));
                finished.push(pj.id);
            },
        }
        q.notify_end();
    }
    assert_eq!(finished, vec![s1_id, p1_id]);
    assert_eq!(q.len(), 0);
}

#[test]
fn monitor_maps_backend_statuses() {
    let mut pj = sample_print("m.pdf");
    let t = pj.created_at;
    print_submit_success_at(&mut pj, 66, t + 1);
    assert!(matches!(pj.status, PrintJobStatus::Processing));
    assert_eq!(pj.cups_job_id, Some(66));

    let mut mon = MonitorState::new();
    assert_eq!(mon.polls_left, MONITOR_POLL_BUDGET);
    // A repeated report changes nothing.
    let done = mon.observe(&mut pj, "", t + 2);
    assert!(!done);
    assert!(matches!(pj.status, PrintJobStatus::Processing));
    let done = mon.observe(&mut pj, "printing", t + 3);
    assert!(!done);
    assert!(matches!(pj.status, PrintJobStatus::Printing));
    // An unrecognized report maps to Processing as the safe default.
    let done = mon.observe(&mut pj, "mystery", t + 4);
    assert!(!done);
    assert!(matches!(pj.status, PrintJobStatus::Processing));
    let done = mon.observe(&mut pj, "completed", t + 5);
    assert!(done);
    assert!(matches!(pj.status, PrintJobStatus::Completed));
    assert!(pj.completed_at.is_some());
}

#[test]
fn cancel_is_always_honored_locally() {
    let mut pj = sample_print("c.pdf");
    let t = pj.created_at;
    print_submit_success_at(&mut pj, 7, t + 1);
    // Whatever the remote cancel returned, the local status is forced.
    cancel_locally_at(&mut pj, t + 2);
    assert!(matches!(pj.status, PrintJobStatus::Cancelled));
    assert!(pj.completed_at.is_some());
}

#[test]
fn scan_queue_single_flight() {
    let mut q = ScanJobQueue::new();
    add_to_scan_queue(&mut q, sample_scan("a.png"));
    add_to_scan_queue(&mut q, sample_scan("b.png"));
    assert_eq!(q.len(), 2);
    assert!(!q.is_empty());
    let first = q.notify_begin();
    assert!(first.is_some());
    assert!(q.is_processing());
    assert!(q.notify_begin().is_none());
    q.notify_end();
    assert!(q.notify_begin().is_some());
    q.notify_end();
    assert!(q.is_empty());
}
