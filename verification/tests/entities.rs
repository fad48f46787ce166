//! The job entities: construction defaults, file names, status
//! transitions and their timestamp rules.

use print_scan_manager::clock::{now_clamped, MAX_TIMESTAMP_MS};
use print_scan_manager::filename::{add_missing_extension, validate_filename};
use print_scan_manager::job::{count_active_prints, count_active_scans};
use print_scan_manager::print_job::{PrintJob, PrintRequest};
use print_scan_manager::scan_job::{ScanJob, ScanRequest};
use print_scan_manager::status::{ColorMode, PrintJobStatus, ScanFormat, ScanJobStatus,
    ScanPageSize, PrintPageSize};
use print_scan_manager::text::capitalize;

fn scan_request(filename: Option<&str>) -> ScanRequest {
    ScanRequest {
        scanner: Some("epson2:libusb:001:002".to_string()),
        resolution: None,
        format: None,
        color_mode: None,
        page_size: None,
        brightness: None,
        contrast: None,
        filename: filename.map(|f| f.to_string()),
    }
}

fn print_request() -> PrintRequest {
    PrintRequest {
        printer: None,
        copies: None,
        pages: None,
        duplex: None,
        color: None,
        page_size: None,
    }
}

#[test]
fn validating_filename_test_existing() {
    let mut test_filename = String::from("scan.png");
    let taken = vec![String::from("scan.png"), String::from("scan_1.png")];

    validate_filename(&mut test_filename, &taken);

    assert_eq!(test_filename, String::from("scan_2.png"));
}

#[test]
fn test_capitalize() {
    assert_eq!(capitalize("hello"), "Hello");
    assert_eq!(capitalize("hello world"), "Hello world");
    assert_eq!(capitalize(""), "");
    assert_eq!(capitalize("a"), "A");
    assert_eq!(capitalize("HELLO"), "Hello");
}

#[test]
fn validate_filename_free_name_unchanged() {
    let mut name = String::from("scan.png");
    let taken = vec![String::from("other.png")];
    validate_filename(&mut name, &taken);
    assert_eq!(name, "scan.png");
}

#[test]
fn add_missing_extension_cases() {
    assert_eq!(add_missing_extension("scan", "pdf"), "scan.pdf");
    assert_eq!(add_missing_extension("scan.png", "pdf"), "scan.png");
    assert_eq!(add_missing_extension("scan", ".jpg"), "scan.jpg");
    assert_eq!(add_missing_extension(".hidden", "pdf"), ".hidden.pdf");
}

#[test]
fn scan_job_defaults() {
    let job = ScanJob::new(
        "epson2:libusb:001:002".to_string(),
        "Epson".to_string(),
        "L3110".to_string(),
        scan_request(None),
    );
    assert!(matches!(job.status, ScanJobStatus::Queued));
    assert_eq!(job.resolution, 300);
    assert!(matches!(job.format, ScanFormat::Pdf));
    assert!(matches!(job.color_mode, ColorMode::Color));
    assert!(matches!(job.page_size, ScanPageSize::A4));
    assert_eq!(job.brightness, 0);
    assert_eq!(job.contrast, 0);
    assert!(job.started_at.is_none());
    assert!(job.completed_at.is_none());
    assert!(job.error_message.is_none());
    assert!(job.file_size.is_none());
    assert!(!job.file_available);
    let name = job.output_filename.expect("generated name");
    assert!(name.starts_with("scan_"));
    assert!(name.ends_with(".pdf"));
    assert_eq!(name.len(), 33);
}

#[test]
fn scan_job_keeps_submitted_filename() {
    let job = ScanJob::new(
        "dev".to_string(),
        "V".to_string(),
        "M".to_string(),
        scan_request(Some("page")),
    );
    assert_eq!(job.output_filename.as_deref(), Some("page.pdf"));
}

#[test]
fn fresh_ids_differ() {
    let a = ScanJob::new("d".to_string(), "v".to_string(), "m".to_string(), scan_request(None));
    let b = ScanJob::new("d".to_string(), "v".to_string(), "m".to_string(), scan_request(None));
    assert_ne!(a.id, b.id);
}

#[test]
fn clock_is_in_range() {
    let t = now_clamped();
    assert!(t >= 0);
    assert!(t <= MAX_TIMESTAMP_MS);
    // A sanity floor well in the past of any machine running this.
    assert!(t > 1_600_000_000_000);
}

#[test]
fn scan_status_stamps_timestamps() {
    let mut job = ScanJob::new(
        "dev".to_string(),
        "v".to_string(),
        "m".to_string(),
        scan_request(Some("a.png")),
    );
    let created = job.created_at;
    job.set_status_at(ScanJobStatus::Scanning, created + 10);
    assert_eq!(job.started_at, Some(created + 10));
    assert!(job.completed_at.is_none());
    // A second in-progress entry does not restamp.
    job.set_status_at(ScanJobStatus::Scanning, created + 99);
    assert_eq!(job.started_at, Some(created + 10));
    job.set_status_at(ScanJobStatus::Completed, created + 20);
    assert_eq!(job.completed_at, Some(created + 20));
    // The first terminal transition wins: a later one does not restamp.
    job.set_status_at(ScanJobStatus::Cancelled, created + 500);
    assert_eq!(job.completed_at, Some(created + 20));
    assert!(job.started_at.unwrap() <= job.completed_at.unwrap());
    assert!(created <= job.started_at.unwrap());
}

#[test]
fn scan_error_forces_failed() {
    let mut job = ScanJob::new(
        "dev".to_string(),
        "v".to_string(),
        "m".to_string(),
        scan_request(Some("a.png")),
    );
    let created = job.created_at;
    job.set_error_at("lamp failure".to_string(), created + 5);
    assert!(matches!(job.status, ScanJobStatus::Failed));
    assert_eq!(job.error_message.as_deref(), Some("lamp failure"));
    assert!(job.completed_at.is_some());
}

#[test]
fn print_job_defaults() {
    let job = PrintJob::new(
        "doc.pdf".to_string(),
        "EPSON_L3110_Series".to_string(),
        "Epson".to_string(),
        "L3110 Series".to_string(),
        print_request(),
    );
    assert!(matches!(job.status, PrintJobStatus::Queued));
    assert_eq!(job.copies, 1);
    assert!(!job.duplex);
    assert!(job.color);
    assert!(matches!(job.page_size, PrintPageSize::A4));
    assert!(job.cups_job_id.is_none());
    assert_eq!(job.get_file_path().as_deref(), Some("uploads/doc.pdf"));
}

#[test]
fn download_needs_a_completed_scan() {
    let mut job = ScanJob::new(
        "dev".to_string(),
        "v".to_string(),
        "m".to_string(),
        scan_request(Some("a.png")),
    );
    assert_eq!(job.download_path(), Err("Scan not completed".to_string()));
    let t = job.created_at;
    job.set_status_at(ScanJobStatus::Scanning, t + 1);
    job.set_status_at(ScanJobStatus::Completed, t + 2);
    assert_eq!(job.download_path(), Ok("scans/a.png".to_string()));
}

#[test]
fn active_job_counts() {
    let mut scanning = ScanJob::new(
        "d".to_string(),
        "v".to_string(),
        "m".to_string(),
        scan_request(Some("x.png")),
    );
    let t = scanning.created_at;
    scanning.set_status_at(ScanJobStatus::Scanning, t + 1);
    let queued = ScanJob::new(
        "d".to_string(),
        "v".to_string(),
        "m".to_string(),
        scan_request(Some("y.png")),
    );
    assert_eq!(count_active_scans(&vec![scanning, queued]), 1);

    let mut printing = PrintJob::new(
        "a.pdf".to_string(),
        "P".to_string(),
        "V".to_string(),
        "M".to_string(),
        print_request(),
    );
    let t = printing.created_at;
    printing.set_status_at(PrintJobStatus::Processing, t + 1);
    printing.set_status_at(PrintJobStatus::Printing, t + 2);
    let mut done = PrintJob::new(
        "b.pdf".to_string(),
        "P".to_string(),
        "V".to_string(),
        "M".to_string(),
        print_request(),
    );
    let t = done.created_at;
    done.set_status_at(PrintJobStatus::Completed, t + 1);
    assert_eq!(count_active_prints(&vec![printing, done]), 1);
}

#[test]
fn print_status_stamps_timestamps() {
    let mut job = PrintJob::new(
        "doc.pdf".to_string(),
        "P".to_string(),
        "V".to_string(),
        "M".to_string(),
        print_request(),
    );
    let created = job.created_at;
    job.set_status_at(PrintJobStatus::Processing, created + 3);
    assert_eq!(job.started_at, Some(created + 3));
    job.set_status_at(PrintJobStatus::Printing, created + 4);
    assert!(job.completed_at.is_none());
    job.set_status_at(PrintJobStatus::Completed, created + 9);
    assert_eq!(job.completed_at, Some(created + 9));
    assert!(job.started_at.unwrap() <= job.completed_at.unwrap());
}
