//! The persisted row forms: a job written as a row and read back is the
//! same job, for every terminal status, and malformed rows name the
//! field that could not be read.

use print_scan_manager::print_job::{PrintJob, PrintRequest};
use print_scan_manager::scan_job::{ScanJob, ScanRequest};
use print_scan_manager::status::{
    map_backend_status, parse_print_status, parse_scan_format, parse_scan_status,
    print_status_token, scan_status_token, ColorMode, PrintJobStatus, PrintPageSize, ScanFormat,
    ScanJobStatus, ScanPageSize,
};

fn sample_scan() -> ScanJob {
    ScanJob::new(
        "epson2:libusb:001:002".to_string(),
        "Epson".to_string(),
        "L3110".to_string(),
        ScanRequest {
            scanner: None,
            resolution: Some(600),
            format: Some(ScanFormat::Jpeg),
            color_mode: Some(ColorMode::Grayscale),
            page_size: Some(ScanPageSize::Letter),
            brightness: Some(5),
            contrast: Some(-3),
            filename: Some("page.jpg".to_string()),
        },
    )
}

fn sample_print() -> PrintJob {
    PrintJob::new(
        "doc.pdf".to_string(),
        "EPSON_L3110_Series".to_string(),
        "Epson".to_string(),
        "L3110 Series".to_string(),
        PrintRequest {
            printer: None,
            copies: Some(2),
            pages: Some("1-3".to_string()),
            duplex: Some(true),
            color: Some(false),
            page_size: Some(PrintPageSize::Letter),
        },
    )
}

fn assert_scan_jobs_equal(a: &ScanJob, b: &ScanJob) {
    assert_eq!(a.id, b.id);
    assert_eq!(a.scanner, b.scanner);
    assert_eq!(a.vendor, b.vendor);
    assert_eq!(a.model, b.model);
    assert_eq!(scan_status_token(a.status), scan_status_token(b.status));
    assert_eq!(a.resolution, b.resolution);
    assert_eq!(a.brightness, b.brightness);
    assert_eq!(a.contrast, b.contrast);
    assert_eq!(a.output_filename, b.output_filename);
    assert_eq!(a.created_at, b.created_at);
    assert_eq!(a.started_at, b.started_at);
    assert_eq!(a.completed_at, b.completed_at);
    assert_eq!(a.error_message, b.error_message);
    assert_eq!(a.file_size, b.file_size);
    assert_eq!(a.file_available, b.file_available);
}

#[test]
fn scan_row_round_trip_all_terminal_statuses() {
    for status in [ScanJobStatus::Completed, ScanJobStatus::Failed, ScanJobStatus::Cancelled] {
        let mut job = sample_scan();
        let t = job.created_at;
        job.set_status_at(ScanJobStatus::Scanning, t + 1);
        job.set_status_at(status, t + 2);
        let row = job.to_row();
        let back = ScanJob::from_row(row).expect("the row to decode");
        assert_scan_jobs_equal(&job, &back);
    }
}

#[test]
fn scan_row_carries_tokens_and_paths() {
    let job = sample_scan();
    let row = job.to_row();
    assert_eq!(row.status, "queued");
    assert_eq!(row.format, "jpeg");
    assert_eq!(row.color_mode, "grayscale");
    assert_eq!(row.page_size, "letter");
    assert_eq!(row.filename, "page.jpg");
    assert_eq!(row.file_path.as_deref(), Some("scans/page.jpg"));
    assert_eq!(row.job_uuid.len(), 36);
}

fn scan_decode_error(row: print_scan_manager::scan_job::ScanRow) -> String {
    match ScanJob::from_row(row) {
        Ok(_) => panic!("the row should have been rejected"),
        Err(m) => m,
    }
}

#[test]
fn scan_row_rejects_bad_fields() {
    let job = sample_scan();
    let mut row = job.to_row();
    row.status = "melted".to_string();
    assert_eq!(scan_decode_error(row), "Unrecognized status");

    let mut row = job.to_row();
    row.format = "gif".to_string();
    assert_eq!(scan_decode_error(row), "Unrecognized format");

    let mut row = job.to_row();
    row.color_mode = "sepia".to_string();
    assert_eq!(scan_decode_error(row), "Unrecognized color mode");

    let mut row = job.to_row();
    row.page_size = "a9".to_string();
    assert_eq!(scan_decode_error(row), "Unrecognized page size");

    let mut row = job.to_row();
    row.job_uuid = "not-an-id".to_string();
    assert_eq!(scan_decode_error(row), "Unrecognized job id");

    let mut row = job.to_row();
    row.resolution = -1;
    assert_eq!(scan_decode_error(row), "Negative resolution");

    let mut row = job.to_row();
    row.file_size = Some(-5);
    assert_eq!(scan_decode_error(row), "Negative file size");
}

fn assert_print_jobs_equal(a: &PrintJob, b: &PrintJob) {
    assert_eq!(a.id, b.id);
    assert_eq!(a.filename, b.filename);
    assert_eq!(a.printer, b.printer);
    assert_eq!(a.vendor, b.vendor);
    assert_eq!(a.model, b.model);
    assert_eq!(print_status_token(a.status), print_status_token(b.status));
    assert_eq!(a.copies, b.copies);
    assert_eq!(a.pages, b.pages);
    assert_eq!(a.duplex, b.duplex);
    assert_eq!(a.color, b.color);
    assert_eq!(a.created_at, b.created_at);
    assert_eq!(a.started_at, b.started_at);
    assert_eq!(a.completed_at, b.completed_at);
    assert_eq!(a.error_message, b.error_message);
    assert_eq!(a.cups_job_id, b.cups_job_id);
}

#[test]
fn print_row_round_trip_all_terminal_statuses() {
    for status in [
        PrintJobStatus::Completed,
        PrintJobStatus::Failed,
        PrintJobStatus::Cancelled,
    ] {
        let mut job = sample_print();
        let t = job.created_at;
        job.set_cups_job_id(66);
        job.set_status_at(PrintJobStatus::Processing, t + 1);
        job.set_status_at(status, t + 2);
        let row = job.to_row();
        let back = PrintJob::from_row(row).expect("the row to decode");
        assert_print_jobs_equal(&job, &back);
    }
}

#[test]
fn print_row_carries_tokens_and_extension() {
    let job = sample_print();
    let row = job.to_row();
    assert_eq!(row.status, "queued");
    assert_eq!(row.page_size, "letter");
    assert_eq!(row.filepath.as_deref(), Some("uploads/doc.pdf"));
    assert_eq!(row.original_filename, "doc.pdf");
    assert_eq!(row.mime_type.as_deref(), Some("pdf"));
}

fn print_decode_error(row: print_scan_manager::print_job::PrintRow) -> String {
    match PrintJob::from_row(row) {
        Ok(_) => panic!("the row should have been rejected"),
        Err(m) => m,
    }
}

#[test]
fn print_row_rejects_bad_fields() {
    let job = sample_print();
    let mut row = job.to_row();
    row.status = "melted".to_string();
    assert_eq!(print_decode_error(row), "Unrecognized status");

    // An unrecognized page size has always reported the same message as
    // an unrecognized status.
    let mut row = job.to_row();
    row.page_size = "a9".to_string();
    assert_eq!(print_decode_error(row), "Unrecognized status");

    let mut row = job.to_row();
    row.job_uuid = "xyz".to_string();
    assert_eq!(print_decode_error(row), "Unrecognized job id");
}

#[test]
fn status_tokens_round_trip() {
    for s in [
        ScanJobStatus::Queued,
        ScanJobStatus::Scanning,
        ScanJobStatus::Processing,
        ScanJobStatus::Completed,
        ScanJobStatus::Failed,
        ScanJobStatus::Cancelled,
    ] {
        let back = parse_scan_status(scan_status_token(s)).expect("the token to parse");
        assert_eq!(scan_status_token(back), scan_status_token(s));
    }
    for s in [
        PrintJobStatus::Queued,
        PrintJobStatus::Processing,
        PrintJobStatus::Printing,
        PrintJobStatus::Completed,
        PrintJobStatus::Failed,
        PrintJobStatus::Cancelled,
    ] {
        let back = parse_print_status(print_status_token(s)).expect("the token to parse");
        assert_eq!(print_status_token(back), print_status_token(s));
    }
    assert!(parse_scan_status("melted").is_none());
    assert!(matches!(parse_scan_format("jpg"), Some(ScanFormat::Jpeg)));
    assert!(matches!(parse_scan_format("jpeg"), Some(ScanFormat::Jpeg)));
}

#[test]
fn page_size_parse_falls_back_to_a4() {
    assert!(matches!(PrintPageSize::from("b5".to_string()), PrintPageSize::B5));
    assert!(matches!(PrintPageSize::from("postcard".to_string()), PrintPageSize::Postcard));
    assert!(matches!(PrintPageSize::from("tabloid".to_string()), PrintPageSize::A4));
}

#[test]
fn backend_status_mapping_table() {
    assert!(matches!(map_backend_status("queued"), PrintJobStatus::Queued));
    assert!(matches!(map_backend_status("pending"), PrintJobStatus::Queued));
    assert!(matches!(map_backend_status("printing"), PrintJobStatus::Printing));
    assert!(matches!(map_backend_status("completed"), PrintJobStatus::Completed));
    assert!(matches!(map_backend_status("idle"), PrintJobStatus::Completed));
    assert!(matches!(map_backend_status("stopped"), PrintJobStatus::Failed));
    assert!(matches!(map_backend_status("aborted"), PrintJobStatus::Failed));
    assert!(matches!(map_backend_status("cancelled"), PrintJobStatus::Cancelled));
    assert!(matches!(map_backend_status("anything else"), PrintJobStatus::Processing));
}
