//! The closed status and attribute enumerations of scan and print jobs,
//! their lower-case persisted tokens, and the fixed mapping from backend
//! status strings onto the local print status.

use vstd::prelude::*;
use crate::text::str_eq;

verus! {

broadcast use vstd::string::group_string_axioms;

/// Lifecycle of a scan job. `Scanning` is the in-progress state that
/// stamps `started_at`; `Completed`, `Failed` and `Cancelled` are terminal.
#[derive(Clone, Copy, Debug, PartialEq, Eq, Structural)]
pub enum ScanJobStatus {
    Queued,
    Scanning,
    Processing,
    Completed,
    Failed,
    Cancelled,
}

/// Lifecycle of a print job. `Processing` is the in-progress state that
/// stamps `started_at`; `Completed`, `Failed` and `Cancelled` are terminal.
#[derive(Clone, Copy, Debug, PartialEq, Eq, Structural)]
pub enum PrintJobStatus {
    Queued,
    Processing,
    Printing,
    Completed,
    Failed,
    Cancelled,
}

#[derive(Clone, Copy, Debug, PartialEq, Eq, Structural)]
pub enum ScanFormat {
    Pdf,
    Jpeg,
    Png,
    Tiff,
}

#[derive(Clone, Copy, Debug, PartialEq, Eq, Structural)]
pub enum ColorMode {
    Color,
    Grayscale,
    Monochrome,
}

#[derive(Clone, Copy, Debug, PartialEq, Eq, Structural)]
pub enum ScanPageSize {
    A4,
    A5,
    Letter,
    Legal,
    Custom,
}

#[derive(Clone, Copy, Debug, PartialEq, Eq, Structural)]
pub enum PrintPageSize {
    A4,
    A5,
    A6,
    B5,
    B6,
    Postcard,
    Letter,
    Legal,
}

/// Terminal scan statuses: no transition leaves them.
pub open spec fn scan_terminal(s: ScanJobStatus) -> bool {
    s == ScanJobStatus::Completed || s == ScanJobStatus::Failed || s == ScanJobStatus::Cancelled
}

/// Terminal print statuses: no transition leaves them.
pub open spec fn print_terminal(s: PrintJobStatus) -> bool {
    s == PrintJobStatus::Completed || s == PrintJobStatus::Failed || s == PrintJobStatus::Cancelled
}

pub fn is_scan_terminal(s: ScanJobStatus) -> (r: bool)
    ensures
        r == scan_terminal(s),
{
    s == ScanJobStatus::Completed || s == ScanJobStatus::Failed || s == ScanJobStatus::Cancelled
}

pub fn is_print_terminal(s: PrintJobStatus) -> (r: bool)
    ensures
        r == print_terminal(s),
{
    s == PrintJobStatus::Completed || s == PrintJobStatus::Failed || s == PrintJobStatus::Cancelled
}

/// The lower-case token a scan status is persisted as.
pub open spec fn spec_scan_status_token(s: ScanJobStatus) -> Seq<char> {
    match s {
        ScanJobStatus::Queued => "queued"@,
        ScanJobStatus::Scanning => "scanning"@,
        ScanJobStatus::Processing => "processing"@,
        ScanJobStatus::Completed => "completed"@,
        ScanJobStatus::Failed => "failed"@,
        ScanJobStatus::Cancelled => "cancelled"@,
    }
}

/// The scan status a persisted token denotes, if any.
pub open spec fn spec_parse_scan_status(t: Seq<char>) -> Option<ScanJobStatus> {
    if t == "queued"@ {
        Some(ScanJobStatus::Queued)
    } else if t == "scanning"@ {
        Some(ScanJobStatus::Scanning)
    } else if t == "processing"@ {
        Some(ScanJobStatus::Processing)
    } else if t == "completed"@ {
        Some(ScanJobStatus::Completed)
    } else if t == "failed"@ {
        Some(ScanJobStatus::Failed)
    } else if t == "cancelled"@ {
        Some(ScanJobStatus::Cancelled)
    } else {
        None
    }
}

pub fn scan_status_token(s: ScanJobStatus) -> (r: &'static str)
    ensures
        r@ == spec_scan_status_token(s),
{
    match s {
        ScanJobStatus::Queued => "queued",
        ScanJobStatus::Scanning => "scanning",
        ScanJobStatus::Processing => "processing",
        ScanJobStatus::Completed => "completed",
        ScanJobStatus::Failed => "failed",
        ScanJobStatus::Cancelled => "cancelled",
    }
}

pub fn parse_scan_status(t: &str) -> (r: Option<ScanJobStatus>)
    ensures
        r == spec_parse_scan_status(t@),
{
    if str_eq(t, "queued") {
        Some(ScanJobStatus::Queued)
    } else if str_eq(t, "scanning") {
        Some(ScanJobStatus::Scanning)
    } else if str_eq(t, "processing") {
        Some(ScanJobStatus::Processing)
    } else if str_eq(t, "completed") {
        Some(ScanJobStatus::Completed)
    } else if str_eq(t, "failed") {
        Some(ScanJobStatus::Failed)
    } else if str_eq(t, "cancelled") {
        Some(ScanJobStatus::Cancelled)
    } else {
        None
    }
}

/// Two character sequences differing at some index are different.
proof fn neq_by_char(a: Seq<char>, b: Seq<char>, i: int)
    requires
        0 <= i < a.len(),
        0 <= i < b.len(),
        a[i] != b[i],
    ensures
        a != b,
{
    if a == b {
        assert(a[i] == b[i]);
    }
}

/// Encoding a scan status and parsing it back yields the same status.
pub proof fn lemma_scan_status_round_trip(s: ScanJobStatus)
    ensures
        spec_parse_scan_status(spec_scan_status_token(s)) == Some(s),
{
    reveal_strlit("queued");
    reveal_strlit("scanning");
    reveal_strlit("processing");
    reveal_strlit("completed");
    reveal_strlit("failed");
    reveal_strlit("cancelled");
    match s {
        ScanJobStatus::Queued => {
        },
        ScanJobStatus::Scanning => {
            neq_by_char("scanning"@, "queued"@, 0);
        },
        ScanJobStatus::Processing => {
            neq_by_char("processing"@, "queued"@, 0);
            neq_by_char("processing"@, "scanning"@, 0);
        },
        ScanJobStatus::Completed => {
            neq_by_char("completed"@, "queued"@, 0);
            neq_by_char("completed"@, "scanning"@, 0);
            neq_by_char("completed"@, "processing"@, 0);
        },
        ScanJobStatus::Failed => {
            neq_by_char("failed"@, "queued"@, 0);
            neq_by_char("failed"@, "scanning"@, 0);
            neq_by_char("failed"@, "processing"@, 0);
            neq_by_char("failed"@, "completed"@, 0);
        },
        ScanJobStatus::Cancelled => {
            neq_by_char("cancelled"@, "queued"@, 0);
            neq_by_char("cancelled"@, "scanning"@, 0);
            neq_by_char("cancelled"@, "processing"@, 0);
            neq_by_char("cancelled"@, "completed"@, 1);
            neq_by_char("cancelled"@, "failed"@, 0);
        },
    }
}

/// The lower-case token a print status is persisted as.
pub open spec fn spec_print_status_token(s: PrintJobStatus) -> Seq<char> {
    match s {
        PrintJobStatus::Queued => "queued"@,
        PrintJobStatus::Processing => "processing"@,
        PrintJobStatus::Printing => "printing"@,
        PrintJobStatus::Completed => "completed"@,
        PrintJobStatus::Failed => "failed"@,
        PrintJobStatus::Cancelled => "cancelled"@,
    }
}

/// The print status a persisted token denotes, if any.
pub open spec fn spec_parse_print_status(t: Seq<char>) -> Option<PrintJobStatus> {
    if t == "queued"@ {
        Some(PrintJobStatus::Queued)
    } else if t == "processing"@ {
        Some(PrintJobStatus::Processing)
    } else if t == "printing"@ {
        Some(PrintJobStatus::Printing)
    } else if t == "completed"@ {
        Some(PrintJobStatus::Completed)
    } else if t == "failed"@ {
        Some(PrintJobStatus::Failed)
    } else if t == "cancelled"@ {
        Some(PrintJobStatus::Cancelled)
    } else {
        None
    }
}

pub fn print_status_token(s: PrintJobStatus) -> (r: &'static str)
    ensures
        r@ == spec_print_status_token(s),
{
    match s {
        PrintJobStatus::Queued => "queued",
        PrintJobStatus::Processing => "processing",
        PrintJobStatus::Printing => "printing",
        PrintJobStatus::Completed => "completed",
        PrintJobStatus::Failed => "failed",
        PrintJobStatus::Cancelled => "cancelled",
    }
}

pub fn parse_print_status(t: &str) -> (r: Option<PrintJobStatus>)
    ensures
        r == spec_parse_print_status(t@),
{
    if str_eq(t, "queued") {
        Some(PrintJobStatus::Queued)
    } else if str_eq(t, "processing") {
        Some(PrintJobStatus::Processing)
    } else if str_eq(t, "printing") {
        Some(PrintJobStatus::Printing)
    } else if str_eq(t, "completed") {
        Some(PrintJobStatus::Completed)
    } else if str_eq(t, "failed") {
        Some(PrintJobStatus::Failed)
    } else if str_eq(t, "cancelled") {
        Some(PrintJobStatus::Cancelled)
    } else {
        None
    }
}

/// Encoding a print status and parsing it back yields the same status.
pub proof fn lemma_print_status_round_trip(s: PrintJobStatus)
    ensures
        spec_parse_print_status(spec_print_status_token(s)) == Some(s),
{
    reveal_strlit("queued");
    reveal_strlit("processing");
    reveal_strlit("printing");
    reveal_strlit("completed");
    reveal_strlit("failed");
    reveal_strlit("cancelled");
    match s {
        PrintJobStatus::Queued => {
        },
        PrintJobStatus::Processing => {
            neq_by_char("processing"@, "queued"@, 0);
        },
        PrintJobStatus::Printing => {
            neq_by_char("printing"@, "queued"@, 0);
            neq_by_char("printing"@, "processing"@, 2);
        },
        PrintJobStatus::Completed => {
            neq_by_char("completed"@, "queued"@, 0);
            neq_by_char("completed"@, "processing"@, 0);
            neq_by_char("completed"@, "printing"@, 0);
        },
        PrintJobStatus::Failed => {
            neq_by_char("failed"@, "queued"@, 0);
            neq_by_char("failed"@, "processing"@, 0);
            neq_by_char("failed"@, "printing"@, 0);
            neq_by_char("failed"@, "completed"@, 0);
        },
        PrintJobStatus::Cancelled => {
            neq_by_char("cancelled"@, "queued"@, 0);
            neq_by_char("cancelled"@, "processing"@, 0);
            neq_by_char("cancelled"@, "printing"@, 0);
            neq_by_char("cancelled"@, "completed"@, 1);
            neq_by_char("cancelled"@, "failed"@, 0);
        },
    }
}

/// The token a scan format is persisted as.
pub open spec fn spec_scan_format_token(f: ScanFormat) -> Seq<char> {
    match f {
        ScanFormat::Pdf => "pdf"@,
        ScanFormat::Jpeg => "jpeg"@,
        ScanFormat::Png => "png"@,
        ScanFormat::Tiff => "tiff"@,
    }
}

/// The scan format a token denotes; `jpg` is accepted alongside `jpeg`.
pub open spec fn spec_parse_scan_format(t: Seq<char>) -> Option<ScanFormat> {
    if t == "pdf"@ {
        Some(ScanFormat::Pdf)
    } else if t == "jpeg"@ || t == "jpg"@ {
        Some(ScanFormat::Jpeg)
    } else if t == "png"@ {
        Some(ScanFormat::Png)
    } else if t == "tiff"@ {
        Some(ScanFormat::Tiff)
    } else {
        None
    }
}

pub fn scan_format_token(f: ScanFormat) -> (r: &'static str)
    ensures
        r@ == spec_scan_format_token(f),
{
    match f {
        ScanFormat::Pdf => "pdf",
        ScanFormat::Jpeg => "jpeg",
        ScanFormat::Png => "png",
        ScanFormat::Tiff => "tiff",
    }
}

pub fn parse_scan_format(t: &str) -> (r: Option<ScanFormat>)
    ensures
        r == spec_parse_scan_format(t@),
{
    if str_eq(t, "pdf") {
        Some(ScanFormat::Pdf)
    } else if str_eq(t, "jpeg") || str_eq(t, "jpg") {
        Some(ScanFormat::Jpeg)
    } else if str_eq(t, "png") {
        Some(ScanFormat::Png)
    } else if str_eq(t, "tiff") {
        Some(ScanFormat::Tiff)
    } else {
        None
    }
}

pub proof fn lemma_scan_format_round_trip(f: ScanFormat)
    ensures
        spec_parse_scan_format(spec_scan_format_token(f)) == Some(f),
{
    reveal_strlit("pdf");
    reveal_strlit("jpeg");
    reveal_strlit("jpg");
    reveal_strlit("png");
    reveal_strlit("tiff");
    match f {
        ScanFormat::Pdf => {
        },
        ScanFormat::Jpeg => {
            neq_by_char("jpeg"@, "pdf"@, 0);
        },
        ScanFormat::Png => {
            neq_by_char("png"@, "pdf"@, 1);
            neq_by_char("png"@, "jpeg"@, 0);
            neq_by_char("png"@, "jpg"@, 0);
        },
        ScanFormat::Tiff => {
            neq_by_char("tiff"@, "pdf"@, 0);
            neq_by_char("tiff"@, "jpeg"@, 0);
            neq_by_char("tiff"@, "jpg"@, 0);
            neq_by_char("tiff"@, "png"@, 0);
        },
    }
}

/// The file extension used for a scan format's output file.
pub open spec fn spec_format_extension(f: ScanFormat) -> Seq<char> {
    match f {
        ScanFormat::Pdf => "pdf"@,
        ScanFormat::Jpeg => "jpg"@,
        ScanFormat::Png => "png"@,
        ScanFormat::Tiff => "tiff"@,
    }
}

pub fn format_extension(f: ScanFormat) -> (r: &'static str)
    ensures
        r@ == spec_format_extension(f),
{
    match f {
        ScanFormat::Pdf => "pdf",
        ScanFormat::Jpeg => "jpg",
        ScanFormat::Png => "png",
        ScanFormat::Tiff => "tiff",
    }
}

/// The token a color mode is persisted as.
pub open spec fn spec_color_mode_token(m: ColorMode) -> Seq<char> {
    match m {
        ColorMode::Color => "color"@,
        ColorMode::Grayscale => "grayscale"@,
        ColorMode::Monochrome => "monochrome"@,
    }
}

pub open spec fn spec_parse_color_mode(t: Seq<char>) -> Option<ColorMode> {
    if t == "color"@ {
        Some(ColorMode::Color)
    } else if t == "grayscale"@ {
        Some(ColorMode::Grayscale)
    } else if t == "monochrome"@ {
        Some(ColorMode::Monochrome)
    } else {
        None
    }
}

pub fn color_mode_token(m: ColorMode) -> (r: &'static str)
    ensures
        r@ == spec_color_mode_token(m),
{
    match m {
        ColorMode::Color => "color",
        ColorMode::Grayscale => "grayscale",
        ColorMode::Monochrome => "monochrome",
    }
}

pub fn parse_color_mode(t: &str) -> (r: Option<ColorMode>)
    ensures
        r == spec_parse_color_mode(t@),
{
    if str_eq(t, "color") {
        Some(ColorMode::Color)
    } else if str_eq(t, "grayscale") {
        Some(ColorMode::Grayscale)
    } else if str_eq(t, "monochrome") {
        Some(ColorMode::Monochrome)
    } else {
        None
    }
}

pub proof fn lemma_color_mode_round_trip(m: ColorMode)
    ensures
        spec_parse_color_mode(spec_color_mode_token(m)) == Some(m),
{
    reveal_strlit("color");
    reveal_strlit("grayscale");
    reveal_strlit("monochrome");
    match m {
        ColorMode::Color => {
        },
        ColorMode::Grayscale => {
            neq_by_char("grayscale"@, "color"@, 0);
        },
        ColorMode::Monochrome => {
            neq_by_char("monochrome"@, "color"@, 0);
            neq_by_char("monochrome"@, "grayscale"@, 0);
        },
    }
}

/// The token a scan page size is persisted as.
pub open spec fn spec_scan_page_size_token(p: ScanPageSize) -> Seq<char> {
    match p {
        ScanPageSize::A4 => "a4"@,
        ScanPageSize::A5 => "a5"@,
        ScanPageSize::Letter => "letter"@,
        ScanPageSize::Legal => "legal"@,
        ScanPageSize::Custom => "custom"@,
    }
}

pub open spec fn spec_parse_scan_page_size(t: Seq<char>) -> Option<ScanPageSize> {
    if t == "a4"@ {
        Some(ScanPageSize::A4)
    } else if t == "a5"@ {
        Some(ScanPageSize::A5)
    } else if t == "letter"@ {
        Some(ScanPageSize::Letter)
    } else if t == "legal"@ {
        Some(ScanPageSize::Legal)
    } else if t == "custom"@ {
        Some(ScanPageSize::Custom)
    } else {
        None
    }
}

pub fn scan_page_size_token(p: ScanPageSize) -> (r: &'static str)
    ensures
        r@ == spec_scan_page_size_token(p),
{
    match p {
        ScanPageSize::A4 => "a4",
        ScanPageSize::A5 => "a5",
        ScanPageSize::Letter => "letter",
        ScanPageSize::Legal => "legal",
        ScanPageSize::Custom => "custom",
    }
}

pub fn parse_scan_page_size(t: &str) -> (r: Option<ScanPageSize>)
    ensures
        r == spec_parse_scan_page_size(t@),
{
    if str_eq(t, "a4") {
        Some(ScanPageSize::A4)
    } else if str_eq(t, "a5") {
        Some(ScanPageSize::A5)
    } else if str_eq(t, "letter") {
        Some(ScanPageSize::Letter)
    } else if str_eq(t, "legal") {
        Some(ScanPageSize::Legal)
    } else if str_eq(t, "custom") {
        Some(ScanPageSize::Custom)
    } else {
        None
    }
}

pub proof fn lemma_scan_page_size_round_trip(p: ScanPageSize)
    ensures
        spec_parse_scan_page_size(spec_scan_page_size_token(p)) == Some(p),
{
    reveal_strlit("a4");
    reveal_strlit("a5");
    reveal_strlit("letter");
    reveal_strlit("legal");
    reveal_strlit("custom");
    match p {
        ScanPageSize::A4 => {
        },
        ScanPageSize::A5 => {
            neq_by_char("a5"@, "a4"@, 1);
        },
        ScanPageSize::Letter => {
            neq_by_char("letter"@, "a4"@, 0);
            neq_by_char("letter"@, "a5"@, 0);
        },
        ScanPageSize::Legal => {
            neq_by_char("legal"@, "a4"@, 0);
            neq_by_char("legal"@, "a5"@, 0);
            neq_by_char("legal"@, "letter"@, 2);
        },
        ScanPageSize::Custom => {
            neq_by_char("custom"@, "a4"@, 0);
            neq_by_char("custom"@, "a5"@, 0);
            neq_by_char("custom"@, "letter"@, 0);
            neq_by_char("custom"@, "legal"@, 0);
        },
    }
}

/// The token a print page size is persisted as.
pub open spec fn spec_print_page_size_token(p: PrintPageSize) -> Seq<char> {
    match p {
        PrintPageSize::A4 => "a4"@,
        PrintPageSize::A5 => "a5"@,
        PrintPageSize::A6 => "a6"@,
        PrintPageSize::B5 => "b5"@,
        PrintPageSize::B6 => "b6"@,
        PrintPageSize::Postcard => "postcard"@,
        PrintPageSize::Letter => "letter"@,
        PrintPageSize::Legal => "legal"@,
    }
}

/// The print page size a token denotes, if it is recognized.
pub open spec fn spec_parse_print_page_size(t: Seq<char>) -> Option<PrintPageSize> {
    if t == "a4"@ {
        Some(PrintPageSize::A4)
    } else if t == "a5"@ {
        Some(PrintPageSize::A5)
    } else if t == "a6"@ {
        Some(PrintPageSize::A6)
    } else if t == "b5"@ {
        Some(PrintPageSize::B5)
    } else if t == "b6"@ {
        Some(PrintPageSize::B6)
    } else if t == "postcard"@ {
        Some(PrintPageSize::Postcard)
    } else if t == "letter"@ {
        Some(PrintPageSize::Letter)
    } else if t == "legal"@ {
        Some(PrintPageSize::Legal)
    } else {
        None
    }
}

pub fn print_page_size_token(p: PrintPageSize) -> (r: &'static str)
    ensures
        r@ == spec_print_page_size_token(p),
{
    match p {
        PrintPageSize::A4 => "a4",
        PrintPageSize::A5 => "a5",
        PrintPageSize::A6 => "a6",
        PrintPageSize::B5 => "b5",
        PrintPageSize::B6 => "b6",
        PrintPageSize::Postcard => "postcard",
        PrintPageSize::Letter => "letter",
        PrintPageSize::Legal => "legal",
    }
}

pub fn parse_print_page_size(t: &str) -> (r: Option<PrintPageSize>)
    ensures
        r == spec_parse_print_page_size(t@),
{
    if str_eq(t, "a4") {
        Some(PrintPageSize::A4)
    } else if str_eq(t, "a5") {
        Some(PrintPageSize::A5)
    } else if str_eq(t, "a6") {
        Some(PrintPageSize::A6)
    } else if str_eq(t, "b5") {
        Some(PrintPageSize::B5)
    } else if str_eq(t, "b6") {
        Some(PrintPageSize::B6)
    } else if str_eq(t, "postcard") {
        Some(PrintPageSize::Postcard)
    } else if str_eq(t, "letter") {
        Some(PrintPageSize::Letter)
    } else if str_eq(t, "legal") {
        Some(PrintPageSize::Legal)
    } else {
        None
    }
}

pub proof fn lemma_print_page_size_round_trip(p: PrintPageSize)
    ensures
        spec_parse_print_page_size(spec_print_page_size_token(p)) == Some(p),
{
    reveal_strlit("a4");
    reveal_strlit("a5");
    reveal_strlit("a6");
    reveal_strlit("b5");
    reveal_strlit("b6");
    reveal_strlit("postcard");
    reveal_strlit("letter");
    reveal_strlit("legal");
    match p {
        PrintPageSize::A4 => {
        },
        PrintPageSize::A5 => {
            neq_by_char("a5"@, "a4"@, 1);
        },
        PrintPageSize::A6 => {
            neq_by_char("a6"@, "a4"@, 1);
            neq_by_char("a6"@, "a5"@, 1);
        },
        PrintPageSize::B5 => {
            neq_by_char("b5"@, "a4"@, 0);
            neq_by_char("b5"@, "a5"@, 0);
            neq_by_char("b5"@, "a6"@, 0);
        },
        PrintPageSize::B6 => {
            neq_by_char("b6"@, "a4"@, 0);
            neq_by_char("b6"@, "a5"@, 0);
            neq_by_char("b6"@, "a6"@, 0);
            neq_by_char("b6"@, "b5"@, 1);
        },
        PrintPageSize::Postcard => {
            neq_by_char("postcard"@, "a4"@, 0);
            neq_by_char("postcard"@, "a5"@, 0);
            neq_by_char("postcard"@, "a6"@, 0);
            neq_by_char("postcard"@, "b5"@, 0);
            neq_by_char("postcard"@, "b6"@, 0);
        },
        PrintPageSize::Letter => {
            neq_by_char("letter"@, "a4"@, 0);
            neq_by_char("letter"@, "a5"@, 0);
            neq_by_char("letter"@, "a6"@, 0);
            neq_by_char("letter"@, "b5"@, 0);
            neq_by_char("letter"@, "b6"@, 0);
            neq_by_char("letter"@, "postcard"@, 0);
        },
        PrintPageSize::Legal => {
            neq_by_char("legal"@, "a4"@, 0);
            neq_by_char("legal"@, "a5"@, 0);
            neq_by_char("legal"@, "a6"@, 0);
            neq_by_char("legal"@, "b5"@, 0);
            neq_by_char("legal"@, "b6"@, 0);
            neq_by_char("legal"@, "postcard"@, 0);
            neq_by_char("legal"@, "letter"@, 2);
        },
    }
}

impl PrintPageSize {
    /// The page size a submitted token asks for; anything unrecognized
    /// falls back to A4.
    pub fn from(s: String) -> (r: PrintPageSize)
        ensures
            r == match spec_parse_print_page_size(s@) {
                Some(p) => p,
                None => PrintPageSize::A4,
            },
    {
        match parse_print_page_size(s.as_str()) {
            Some(p) => p,
            None => PrintPageSize::A4,
        }
    }
}

/// The local print status a backend-reported status string maps onto.
/// Unrecognized strings map to `Processing` as a safe default.
pub open spec fn spec_map_backend_status(t: Seq<char>) -> PrintJobStatus {
    if t == "queued"@ || t == "pending"@ {
        PrintJobStatus::Queued
    } else if t == "printing"@ {
        PrintJobStatus::Printing
    } else if t == "completed"@ || t == "idle"@ {
        PrintJobStatus::Completed
    } else if t == "stopped"@ || t == "aborted"@ {
        PrintJobStatus::Failed
    } else if t == "cancelled"@ {
        PrintJobStatus::Cancelled
    } else {
        PrintJobStatus::Processing
    }
}

/// Map a backend-reported status string onto the local print status.
pub fn map_backend_status(t: &str) -> (r: PrintJobStatus)
    ensures
        r == spec_map_backend_status(t@),
{
    if str_eq(t, "queued") || str_eq(t, "pending") {
        PrintJobStatus::Queued
    } else if str_eq(t, "printing") {
        PrintJobStatus::Printing
    } else if str_eq(t, "completed") || str_eq(t, "idle") {
        PrintJobStatus::Completed
    } else if str_eq(t, "stopped") || str_eq(t, "aborted") {
        PrintJobStatus::Failed
    } else if str_eq(t, "cancelled") {
        PrintJobStatus::Cancelled
    } else {
        PrintJobStatus::Processing
    }
}

} // verus!
