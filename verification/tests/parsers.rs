//! The device command-output parsers and argument builders.

use print_scan_manager::api::{
    choose_printer, default_settings, parse_disk_space, parse_form_flag, show_devices, Printer,
    Scanner,
};
use print_scan_manager::cups::{
    build_lp_args, job_status_decision, parse_active_jobs, parse_lp_job_id, parse_printers,
    printer_description_from_output, printer_location_from_output, CupsService,
};
use print_scan_manager::escputil::{maintenance_error_message, maintenance_target,
    MaintenanceService};
use print_scan_manager::print_job::{file_extension, PrintJob, PrintRequest};
use print_scan_manager::sane::{
    build_scanimage_args, extract_model_from_line, extract_vendor_from_line, parse_scanner_line,
    scanner_name_from_listing, scanner_of, scan_output_path, SaneService,
};
use print_scan_manager::scan_job::{ScanJob, ScanRequest};
use print_scan_manager::status::{ColorMode, PrintPageSize, ScanFormat, ScanPageSize};

const DISCOVERY_LINE: &str =
    "found possible USB scanner (vendor=0x04b8 [EPSON], product=0x1142 [L3110 Series]) at libusb:001:002";

#[test]
fn printers_listing_parses() {
    let _service = CupsService::new();
    let out = "printer EPSON_L3110_Series is idle.  enabled since Mon\n\
               printer Old_Laser is stopped.\n\
               system default destination: Old_Laser\n";
    let printers = parse_printers(out).expect("the listing to parse");
    assert_eq!(printers.len(), 2);
    assert_eq!(printers[0].name, "EPSON_L3110_Series");
    assert_eq!(printers[0].vendor, "Epson");
    assert_eq!(printers[0].model, "L3110 Series");
    assert_eq!(printers[0].status, "idle");
    assert!(!printers[0].is_default);
    assert_eq!(printers[1].name, "Old_Laser");
    assert_eq!(printers[1].status, "stopped");
    assert!(printers[1].is_default);
}

#[test]
fn printers_listing_rejects_lpstat_error() {
    let out = "lpstat: No destinations added.\n";
    match parse_printers(out) {
        Ok(_) => panic!("the error line should reject the listing"),
        Err(m) => assert_eq!(m, "No printer is available"),
    }
}

#[test]
fn lp_reply_yields_job_id() {
    let out = "request id is EPSON_L3110_Series-66 (1 file(s))\n";
    assert_eq!(parse_lp_job_id(out), Ok(66));
    match parse_lp_job_id("request id is EPSON-abc (1 file(s))") {
        Err(m) => assert_eq!(m, "Prase ID error"),
        Ok(_) => panic!("a non-numeric handle should fail"),
    }
    match parse_lp_job_id("nothing here") {
        Err(m) => assert_eq!(m, "No job ID returned"),
        Ok(_) => panic!("a short reply carries no handle"),
    }
}

#[test]
fn job_status_decision_cases() {
    let active = "EPSON_L3110_Series-66 pi 1024 Mon\n";
    let completed = "EPSON_L3110_Series-42 pi 1024 Mon\n";
    assert_eq!(
        job_status_decision(true, active, true, completed, 66),
        Ok("active".to_string())
    );
    assert_eq!(
        job_status_decision(true, active, true, completed, 42),
        Ok("completed".to_string())
    );
    assert_eq!(
        job_status_decision(false, "", false, completed, 66),
        Err("Failed to get completed job status".to_string())
    );
    assert_eq!(
        job_status_decision(true, active, true, completed, 7),
        Err("Job 7 not found".to_string())
    );
}

#[test]
fn active_jobs_listing_parses() {
    let out = "EPSON_L3110_Series-66 pi 1024 Mon 01 Jan\n\
               garbage line\n\
               Old_Laser-3 guest 2048 Tue 02 Jan\n";
    let jobs = parse_active_jobs(out);
    assert_eq!(jobs.len(), 2);
    assert_eq!(jobs[0], (66, "EPSON_L3110_Series".to_string(), "pi".to_string()));
    assert_eq!(jobs[1], (3, "Old_Laser".to_string(), "guest".to_string()));
}

#[test]
fn printer_detail_lines_parse() {
    let usb = "device for EPSON_L3110_Series: usb://EPSON/L3110?serial=1\nusb: something\n";
    assert_eq!(
        printer_description_from_output(usb, "EPSON_L3110_Series").as_deref(),
        Some("USB Printer [EPSON_L3110_Series]")
    );
    let uri = "something device-uri here\n";
    assert_eq!(
        printer_description_from_output(uri, "P").as_deref(),
        Some("P [description: something device-uri here]")
    );
    assert!(printer_description_from_output("nothing\n", "P").is_none());

    let loc = "printer P\n\tLocation: attic\n";
    assert_eq!(printer_location_from_output(loc).as_deref(), Some("\tLocation: attic"));
    assert!(printer_location_from_output("no place\n").is_none());
}

#[test]
fn lp_args_follow_the_job() {
    let job = PrintJob::new(
        "doc.pdf".to_string(),
        "EPSON_L3110_Series".to_string(),
        "Epson".to_string(),
        "L3110 Series".to_string(),
        PrintRequest {
            printer: None,
            copies: Some(2),
            pages: Some("1-3".to_string()),
            duplex: Some(true),
            color: Some(false),
            page_size: Some(PrintPageSize::Letter),
        },
    );
    let args = build_lp_args(&job, "uploads/doc.pdf");
    assert_eq!(
        args,
        vec![
            "-d",
            "EPSON_L3110_Series",
            "-n",
            "2",
            "-P",
            "1-3",
            "-o",
            "sides=two -sided-long-edge",
            "-o",
            "Ink=MONO",
            "-o",
            "PageSize=Letter",
            "uploads/doc.pdf",
        ]
    );
}

#[test]
fn scanner_discovery_line_parses() {
    let _service = SaneService::new();
    assert_eq!(extract_vendor_from_line(DISCOVERY_LINE).as_deref(), Some("Epson"));
    assert_eq!(extract_model_from_line(DISCOVERY_LINE).as_deref(), Some("L3110 Series"));
    let (partial, vendor, model) = parse_scanner_line(DISCOVERY_LINE).expect("a scanner line");
    assert_eq!(partial, "libusb:001:002");
    assert_eq!(vendor.as_deref(), Some("Epson"));
    assert_eq!(model.as_deref(), Some("L3110 Series"));
    assert!(parse_scanner_line("nothing to see").is_none());

    let scanner = scanner_of("epson2:libusb:001:002".to_string(), vendor, model);
    assert_eq!(scanner.name, "epson2:libusb:001:002");
    assert_eq!(scanner.vendor, "Epson");
    assert_eq!(scanner.model, "L3110 Series");
    assert_eq!(scanner.device_type, "flatbed scanner");

    let anonymous = scanner_of("dev".to_string(), None, None);
    assert_eq!(anonymous.vendor, "Unknown");
    assert_eq!(anonymous.model, "Scanner");
}

#[test]
fn scanner_name_resolves_from_listing() {
    let listing = "device `epson2:libusb:001:002' is a Epson L3110 flatbed scanner\n";
    assert_eq!(
        scanner_name_from_listing(listing, "libusb:001:002"),
        Ok("epson2:libusb:001:002".to_string())
    );
    assert_eq!(
        scanner_name_from_listing(listing, "libusb:9:9"),
        Err("Couldnt find matching name".to_string())
    );
}

#[test]
fn scanimage_args_follow_the_job() {
    let job = ScanJob::new(
        "epson2:libusb:001:002".to_string(),
        "Epson".to_string(),
        "L3110".to_string(),
        ScanRequest {
            scanner: None,
            resolution: Some(600),
            format: Some(ScanFormat::Png),
            color_mode: Some(ColorMode::Grayscale),
            page_size: Some(ScanPageSize::A4),
            brightness: None,
            contrast: None,
            filename: Some("page.png".to_string()),
        },
    );
    let path = scan_output_path(&job).expect("an output path");
    assert_eq!(path, "scans/page.png");
    let args = build_scanimage_args(&job, &path);
    assert_eq!(
        args,
        vec![
            "-d",
            "epson2:libusb:001:002",
            "--resolution",
            "600",
            "--format",
            "png",
            "--mode",
            "Gray",
            "-o",
            "scans/page.png",
        ]
    );
}

fn listed_printer(name: &str, is_default: bool) -> Printer {
    Printer {
        name: name.to_string(),
        vendor: "V".to_string(),
        model: "M".to_string(),
        description: name.to_string(),
        status: "idle".to_string(),
        location: None,
        is_default,
    }
}

#[test]
fn printer_choice_rules() {
    let none: Vec<Printer> = Vec::new();
    assert_eq!(
        choose_printer(None, &none),
        Err("No printers available".to_string())
    );

    let printers = vec![listed_printer("A", false), listed_printer("B", true)];
    assert_eq!(choose_printer(None, &printers), Ok("B".to_string()));
    let empty = String::new();
    assert_eq!(choose_printer(Some(&empty), &printers), Ok("B".to_string()));
    let req = "A".to_string();
    assert_eq!(choose_printer(Some(&req), &printers), Ok("A".to_string()));
    let missing = "C".to_string();
    assert_eq!(
        choose_printer(Some(&missing), &printers),
        Err("Printer 'C' not found. Available printers: A, B".to_string())
    );

    let no_default = vec![listed_printer("A", false), listed_printer("B", false)];
    assert_eq!(choose_printer(None, &no_default), Ok("A".to_string()));
}

#[test]
fn disk_space_parses_fourth_column() {
    let out = "Filesystem 1M-blocks Used Available Use% Mounted on\n\
               /dev/root 29027 6253 21332 23% /\n";
    assert_eq!(parse_disk_space(out), Some(21332));
    assert_eq!(parse_disk_space("Filesystem only header\n"), None);
    assert_eq!(parse_disk_space("header\nshort line\n"), None);
}

#[test]
fn form_flags_accept_true_and_on() {
    let yes = "true".to_string();
    let on = "on".to_string();
    let off = "off".to_string();
    assert!(parse_form_flag(Some(&yes), false));
    assert!(parse_form_flag(Some(&on), false));
    assert!(!parse_form_flag(Some(&off), true));
    assert!(parse_form_flag(None, true));
    assert!(!parse_form_flag(None, false));
}

#[test]
fn file_extension_rules() {
    assert_eq!(file_extension("doc.pdf").as_deref(), Some("pdf"));
    assert_eq!(file_extension("archive.tar.gz").as_deref(), Some("gz"));
    assert!(file_extension("README").is_none());
    assert!(file_extension(".hidden").is_none());
}

#[test]
fn settings_are_fixed() {
    let s = default_settings();
    assert_eq!(s.default_resolution, 300);
    assert!(s.auto_cleanup);
    assert_eq!(s.max_file_size_mb, 50);
    assert_eq!(s.supported_formats, vec!["pdf", "jpeg", "png", "tiff"]);
}

#[test]
fn device_listing_renders() {
    let scanners = vec![Scanner {
        name: "epson2:libusb:001:002".to_string(),
        vendor: "Epson".to_string(),
        model: "L3110 Series".to_string(),
        device_type: "flatbed scanner".to_string(),
    }];
    let printers = vec![listed_printer("EPSON_L3110_Series", true)];
    let listing = show_devices(&scanners, &printers);
    assert_eq!(
        listing,
        "Scanners:\n\tScanner - Name: epson2:libusb:001:002, Vendor: Epson, Model: L3110 Series\n\
         Printers:\n\tPrinter - Name: EPSON_L3110_Series, Vendor: V, Model: M"
    );
}

#[test]
fn maintenance_messages_and_target() {
    let _service = MaintenanceService::new();
    assert_eq!(maintenance_error_message("-n"), "Error during checking nozzle heads");
    assert_eq!(maintenance_error_message("-c"), "Error during cleaning nozzle heads");
    assert_eq!(maintenance_error_message("-x"), "Error executing escputil");
    let printers = vec![listed_printer("A", false)];
    assert_eq!(maintenance_target(&printers), "A");
    let none: Vec<Printer> = Vec::new();
    assert_eq!(maintenance_target(&none), "none");
}
