//! The scan job entity: its fields, well-formedness, status transitions
//! with timestamp stamping, and the persisted row form with its encode and
//! decode.

use vstd::prelude::*;
use vstd::string::*;
use crate::clock::{now_clamped, timestamp_compact, compact_text, MAX_TIMESTAMP_MS};
use crate::filename::{add_missing_extension, spec_add_missing_extension};
use crate::ids::{fresh_id, id_string, parse_id, uuid_text, uuid_value};
use crate::status::{
    color_mode_token, format_extension, lemma_color_mode_round_trip, lemma_scan_format_round_trip,
    lemma_scan_page_size_round_trip, lemma_scan_status_round_trip, parse_color_mode,
    parse_scan_format, parse_scan_page_size, parse_scan_status, scan_format_token,
    scan_page_size_token, scan_status_token, scan_terminal, spec_color_mode_token,
    spec_format_extension, spec_parse_color_mode, spec_parse_scan_format,
    spec_parse_scan_page_size, spec_parse_scan_status, spec_scan_format_token,
    spec_scan_page_size_token, spec_scan_status_token, ColorMode, ScanFormat, ScanJobStatus,
    ScanPageSize,
};
use crate::text::substr_string;

verus! {

/// What a scan submission may specify; everything is optional and
/// defaulted at job construction.
pub struct ScanRequest {
    pub scanner: Option<String>,
    pub resolution: Option<u32>,
    pub format: Option<ScanFormat>,
    pub color_mode: Option<ColorMode>,
    pub page_size: Option<ScanPageSize>,
    pub brightness: Option<i32>,
    pub contrast: Option<i32>,
    pub filename: Option<String>,
}

/// One scan job, from submission to terminal status.
pub struct ScanJob {
    pub id: u128,
    pub scanner: String,
    pub vendor: String,
    pub model: String,
    pub status: ScanJobStatus,
    pub resolution: u32,
    pub format: ScanFormat,
    pub color_mode: ColorMode,
    pub page_size: ScanPageSize,
    pub brightness: i32,
    pub contrast: i32,
    pub output_filename: Option<String>,
    pub created_at: i64,
    pub started_at: Option<i64>,
    pub completed_at: Option<i64>,
    pub error_message: Option<String>,
    pub file_size: Option<u64>,
    pub file_available: bool,
}

impl ScanJob {
    /// Well-formedness: timestamps are in range and ordered, and an error
    /// message implies a terminal status.
    pub open spec fn wf(self) -> bool {
        &&& 0 <= self.created_at <= MAX_TIMESTAMP_MS
        &&& match self.started_at {
            Some(t) => self.created_at <= t <= MAX_TIMESTAMP_MS,
            None => true,
        }
        &&& match self.completed_at {
            Some(t) => self.created_at <= t <= MAX_TIMESTAMP_MS,
            None => true,
        }
        &&& (self.started_at is Some && self.completed_at is Some) ==> self.started_at->0
            <= self.completed_at->0
        &&& self.error_message is Some ==> scan_terminal(self.status)
    }

    /// The status update rule: the new status is taken as given;
    /// `started_at` is stamped on first entering `Scanning` and
    /// `completed_at` on first reaching a terminal status, each clamped
    /// below by the timestamps already present.
    pub open spec fn spec_set_status(self, status: ScanJobStatus, now: i64) -> ScanJob {
        let started = if status == ScanJobStatus::Scanning && self.started_at is None {
            Some(if now >= self.created_at { now } else { self.created_at })
        } else {
            self.started_at
        };
        let base = if self.started_at is Some && self.started_at->0 > self.created_at {
            self.started_at->0
        } else {
            self.created_at
        };
        let completed = if scan_terminal(status) && self.completed_at is None {
            Some(if now >= base { now } else { base })
        } else {
            self.completed_at
        };
        ScanJob { status, started_at: started, completed_at: completed, ..self }
    }

    /// Advance the status, stamping timestamps with the given time.
    pub fn set_status_at(&mut self, status: ScanJobStatus, now: i64)
        requires
            0 <= now <= MAX_TIMESTAMP_MS,
        ensures
            *final(self) == old(self).spec_set_status(status, now),
            old(self).wf() && (old(self).error_message is Some ==> scan_terminal(status)) && (
            status == ScanJobStatus::Scanning && old(self).started_at is None ==> old(
                self,
            ).completed_at is None) ==> final(self).wf(),
    {
        self.status = status;
        match status {
            ScanJobStatus::Scanning => {
                if self.started_at.is_none() {
                    let t = if now >= self.created_at {
                        now
                    } else {
                        self.created_at
                    };
                    self.started_at = Some(t);
                }
            },
            ScanJobStatus::Completed | ScanJobStatus::Failed | ScanJobStatus::Cancelled => {
                if self.completed_at.is_none() {
                    let base = match self.started_at {
                        Some(s) => {
                            if s > self.created_at {
                                s
                            } else {
                                self.created_at
                            }
                        },
                        None => self.created_at,
                    };
                    let t = if now >= base {
                        now
                    } else {
                        base
                    };
                    self.completed_at = Some(t);
                }
            },
            _ => {},
        }
    }

    /// Advance the status, stamping timestamps with the current time.
    pub fn set_status(&mut self, status: ScanJobStatus)
        ensures
            exists|t: i64|
                0 <= t <= MAX_TIMESTAMP_MS && *final(self) == old(self).spec_set_status(
                    status,
                    t,
                ),
            final(self).status == status,
            old(self).wf() && (old(self).error_message is Some ==> scan_terminal(status)) && (
            status == ScanJobStatus::Scanning && old(self).started_at is None ==> old(
                self,
            ).completed_at is None) ==> final(self).wf(),
    {
        let now = now_clamped();
        self.set_status_at(status, now);
    }

    /// The error rule: the message is recorded and the status forced to
    /// the terminal `Failed`, stamping `completed_at` as
    /// [`ScanJob::spec_set_status`] does.
    pub open spec fn spec_set_error(self, error: String, now: i64) -> ScanJob {
        (ScanJob { error_message: Some(error), ..self }).spec_set_status(
            ScanJobStatus::Failed,
            now,
        )
    }

    /// Record an error message and force the terminal `Failed` status.
    pub fn set_error_at(&mut self, error: String, now: i64)
        requires
            0 <= now <= MAX_TIMESTAMP_MS,
        ensures
            *final(self) == old(self).spec_set_error(error, now),
            old(self).wf() ==> final(self).wf(),
    {
        self.error_message = Some(error);
        self.set_status_at(ScanJobStatus::Failed, now);
    }

    /// Record an error message and force `Failed`, stamping with the
    /// current time.
    pub fn set_error(&mut self, error: String)
        ensures
            exists|t: i64|
                0 <= t <= MAX_TIMESTAMP_MS && *final(self) == old(self).spec_set_error(error, t),
            final(self).status == ScanJobStatus::Failed,
            final(self).error_message == Some(error),
            old(self).wf() ==> final(self).wf(),
    {
        let now = now_clamped();
        self.set_error_at(error, now);
    }

    /// Where the scanned file is stored, when an output name exists.
    pub fn get_file_path(&self) -> (r: Option<String>)
        ensures
            match self.output_filename {
                Some(f) => r is Some && r->0@ == "scans/"@ + f@,
                None => r is None,
            },
    {
        match &self.output_filename {
            Some(f) => {
                let mut p = String::from_str("scans/");
                p.append(f.as_str());
                Some(p)
            },
            None => None,
        }
    }

    /// Build a new queued scan job from a submission, assigning a fresh
    /// identifier, the current creation time, and an output file name
    /// (the submitted one with its extension supplied, or a generated
    /// stamp-and-identifier name).
    pub fn new(scanner: String, vendor: String, model: String, request: ScanRequest) -> (r:
        ScanJob)
        ensures
            r.status == ScanJobStatus::Queued,
            r.scanner == scanner,
            r.vendor == vendor,
            r.model == model,
            r.resolution == match request.resolution {
                Some(v) => v,
                None => 300u32,
            },
            r.format == match request.format {
                Some(f) => f,
                None => ScanFormat::Pdf,
            },
            r.color_mode == match request.color_mode {
                Some(m) => m,
                None => ColorMode::Color,
            },
            r.page_size == match request.page_size {
                Some(p) => p,
                None => ScanPageSize::A4,
            },
            r.brightness == match request.brightness {
                Some(b) => b,
                None => 0i32,
            },
            r.contrast == match request.contrast {
                Some(c) => c,
                None => 0i32,
            },
            r.started_at is None,
            r.completed_at is None,
            r.error_message is None,
            r.file_size is None,
            !r.file_available,
            0 <= r.created_at <= MAX_TIMESTAMP_MS,
            r.output_filename is Some,
            match request.filename {
                Some(name) => r.output_filename->0@ == spec_add_missing_extension(
                    name@,
                    spec_format_extension(r.format),
                ),
                None => r.output_filename->0@ == "scan_"@ + compact_text(r.created_at) + "_"@
                    + uuid_text(r.id).subrange(0, 8) + "."@ + spec_format_extension(r.format),
            },
            r.wf(),
    {
        let id = fresh_id();
        let created = now_clamped();
        let format = match request.format {
            Some(f) => f,
            None => ScanFormat::Pdf,
        };
        let extension = format_extension(format);
        let filename = match request.filename {
            Some(name) => add_missing_extension(name.as_str(), extension),
            None => {
                let stamp = timestamp_compact(created);
                let idtext = id_string(id);
                let prefix = substr_string(idtext.as_str(), 0, 8);
                let mut name = String::from_str("scan_");
                name.append(stamp.as_str());
                name.append("_");
                name.append(prefix.as_str());
                name.append(".");
                name.append(extension);
                proof {
                    assert(name@ =~= "scan_"@ + compact_text(created) + "_"@ + uuid_text(
                        id,
                    ).subrange(0, 8) + "."@ + spec_format_extension(format));
                }
                name
            },
        };
        ScanJob {
            id,
            scanner,
            vendor,
            model,
            status: ScanJobStatus::Queued,
            resolution: match request.resolution {
                Some(v) => v,
                None => 300,
            },
            format,
            color_mode: match request.color_mode {
                Some(m) => m,
                None => ColorMode::Color,
            },
            page_size: match request.page_size {
                Some(p) => p,
                None => ScanPageSize::A4,
            },
            brightness: match request.brightness {
                Some(b) => b,
                None => 0,
            },
            contrast: match request.contrast {
                Some(c) => c,
                None => 0,
            },
            output_filename: Some(filename),
            created_at: created,
            started_at: None,
            completed_at: None,
            error_message: None,
            file_size: None,
            file_available: false,
        }
    }

    /// Where a download of this scan is served from: only a completed
    /// scan with an output name has a file to serve.
    pub fn download_path(&self) -> (r: Result<String, String>)
        ensures
            self.status == ScanJobStatus::Completed && self.output_filename is Some ==> r is Ok
                && r->Ok_0@ == "scans/"@ + self.output_filename->0@,
            self.status != ScanJobStatus::Completed ==> r is Err && r->Err_0@
                == "Scan not completed"@,
            self.status == ScanJobStatus::Completed && self.output_filename is None ==> r is Err
                && r->Err_0@ == "No output file available"@,
    {
        if self.status == ScanJobStatus::Completed {
            match self.get_file_path() {
                Some(p) => Ok(p),
                None => Err(String::from_str("No output file available")),
            }
        } else {
            Err(String::from_str("Scan not completed"))
        }
    }

    /// A field-for-field copy.
    pub fn duplicate(&self) -> (r: ScanJob)
        ensures
            r == *self,
    {
        ScanJob {
            id: self.id,
            scanner: self.scanner.clone(),
            vendor: self.vendor.clone(),
            model: self.model.clone(),
            status: self.status,
            resolution: self.resolution,
            format: self.format,
            color_mode: self.color_mode,
            page_size: self.page_size,
            brightness: self.brightness,
            contrast: self.contrast,
            output_filename: match &self.output_filename {
                Some(f) => Some(f.clone()),
                None => None,
            },
            created_at: self.created_at,
            started_at: self.started_at,
            completed_at: self.completed_at,
            error_message: match &self.error_message {
                Some(e) => Some(e.clone()),
                None => None,
            },
            file_size: self.file_size,
            file_available: self.file_available,
        }
    }
}

/// The plain values a scan job is persisted as: one row of the scan-job
/// table, with enumerations as lower-case tokens and the identifier in
/// its text form.
pub struct ScanRow {
    pub job_uuid: String,
    pub scanner_name: String,
    pub vendor: String,
    pub model: String,
    pub filename: String,
    pub file_path: Option<String>,
    pub status: String,
    pub created_at: i64,
    pub started_at: Option<i64>,
    pub completed_at: Option<i64>,
    pub error_message: Option<String>,
    pub resolution: i32,
    pub format: String,
    pub color_mode: String,
    pub page_size: String,
    pub brightness: i32,
    pub contrast: i32,
    pub file_size: Option<i64>,
    pub file_available: bool,
}

/// The scan job a persisted row denotes: every token must parse, the
/// identifier text must be a well-formed identifier, and the counted
/// columns must be non-negative.
pub open spec fn spec_decode_scan_row(row: ScanRow) -> Option<ScanJob> {
    if spec_parse_scan_status(row.status@) is None {
        None
    } else if spec_parse_scan_format(row.format@) is None {
        None
    } else if spec_parse_color_mode(row.color_mode@) is None {
        None
    } else if spec_parse_scan_page_size(row.page_size@) is None {
        None
    } else if uuid_value(row.job_uuid@) is None {
        None
    } else if row.resolution < 0 {
        None
    } else if row.file_size is Some && row.file_size->0 < 0 {
        None
    } else {
        Some(
            ScanJob {
                id: uuid_value(row.job_uuid@)->0,
                scanner: row.scanner_name,
                vendor: row.vendor,
                model: row.model,
                status: spec_parse_scan_status(row.status@)->0,
                resolution: row.resolution as u32,
                format: spec_parse_scan_format(row.format@)->0,
                color_mode: spec_parse_color_mode(row.color_mode@)->0,
                page_size: spec_parse_scan_page_size(row.page_size@)->0,
                brightness: row.brightness,
                contrast: row.contrast,
                output_filename: Some(row.filename),
                created_at: row.created_at,
                started_at: row.started_at,
                completed_at: row.completed_at,
                error_message: row.error_message,
                file_size: match row.file_size {
                    Some(s) => Some(s as u64),
                    None => None,
                },
                file_available: row.file_available,
            },
        )
    }
}

impl ScanJob {
    /// Encode this job as the row it is persisted as. A missing output
    /// file name is stored as `unnamed-` followed by the identifier; the
    /// resolution and file size are truncated into the signed column
    /// types, as the store's integer columns hold them.
    pub fn to_row(&self) -> (r: ScanRow)
        ensures
            r.job_uuid@ == uuid_text(self.id),
            uuid_value(r.job_uuid@) == Some(self.id),
            r.scanner_name == self.scanner,
            r.vendor == self.vendor,
            r.model == self.model,
            match self.output_filename {
                Some(f) => r.filename == f,
                None => r.filename@ == "unnamed-"@ + uuid_text(self.id),
            },
            match self.output_filename {
                Some(f) => r.file_path is Some && r.file_path->0@ == "scans/"@ + f@,
                None => r.file_path is None,
            },
            r.status@ == spec_scan_status_token(self.status),
            r.format@ == spec_scan_format_token(self.format),
            r.color_mode@ == spec_color_mode_token(self.color_mode),
            r.page_size@ == spec_scan_page_size_token(self.page_size),
            r.created_at == self.created_at,
            r.started_at == self.started_at,
            r.completed_at == self.completed_at,
            r.error_message == self.error_message,
            r.resolution == self.resolution as i32,
            r.brightness == self.brightness,
            r.contrast == self.contrast,
            r.file_size == match self.file_size {
                Some(s) => Some(s as i64),
                None => None,
            },
            r.file_available == self.file_available,
    {
        let job_uuid = id_string(self.id);
        let filename = match &self.output_filename {
            Some(f) => f.clone(),
            None => {
                let mut n = String::from_str("unnamed-");
                let idtext = id_string(self.id);
                n.append(idtext.as_str());
                proof {
                    assert(n@ =~= "unnamed-"@ + uuid_text(self.id));
                }
                n
            },
        };
        ScanRow {
            job_uuid,
            scanner_name: self.scanner.clone(),
            vendor: self.vendor.clone(),
            model: self.model.clone(),
            filename,
            file_path: self.get_file_path(),
            status: String::from_str(scan_status_token(self.status)),
            created_at: self.created_at,
            started_at: self.started_at,
            completed_at: self.completed_at,
            error_message: match &self.error_message {
                Some(e) => Some(e.clone()),
                None => None,
            },
            resolution: #[verifier::truncate] (self.resolution as i32),
            format: String::from_str(scan_format_token(self.format)),
            color_mode: String::from_str(color_mode_token(self.color_mode)),
            page_size: String::from_str(scan_page_size_token(self.page_size)),
            brightness: self.brightness,
            contrast: self.contrast,
            file_size: match self.file_size {
                Some(s) => Some(#[verifier::truncate] (s as i64)),
                None => None,
            },
            file_available: self.file_available,
        }
    }

    /// Decode a persisted row back into a scan job, as
    /// [`spec_decode_scan_row`] describes. Each rejected row names the
    /// first field that could not be read.
    pub fn from_row(row: ScanRow) -> (r: Result<ScanJob, String>)
        ensures
            match r {
                Ok(j) => spec_decode_scan_row(row) == Some(j),
                Err(_) => spec_decode_scan_row(row) is None,
            },
            spec_parse_scan_status(row.status@) is None ==> r is Err && r->Err_0@
                == "Unrecognized status"@,
    {
        let status = match parse_scan_status(row.status.as_str()) {
            Some(s) => s,
            None => {
                return Err(String::from_str("Unrecognized status"));
            },
        };
        let format = match parse_scan_format(row.format.as_str()) {
            Some(f) => f,
            None => {
                return Err(String::from_str("Unrecognized format"));
            },
        };
        let color_mode = match parse_color_mode(row.color_mode.as_str()) {
            Some(m) => m,
            None => {
                return Err(String::from_str("Unrecognized color mode"));
            },
        };
        let page_size = match parse_scan_page_size(row.page_size.as_str()) {
            Some(p) => p,
            None => {
                return Err(String::from_str("Unrecognized page size"));
            },
        };
        let id = match parse_id(row.job_uuid.as_str()) {
            Some(v) => v,
            None => {
                return Err(String::from_str("Unrecognized job id"));
            },
        };
        if row.resolution < 0 {
            return Err(String::from_str("Negative resolution"));
        }
        let file_size: Option<u64> = match row.file_size {
            Some(s) => {
                if s < 0 {
                    return Err(String::from_str("Negative file size"));
                } else {
                    Some(s as u64)
                }
            },
            None => None,
        };
        Ok(
            ScanJob {
                id,
                scanner: row.scanner_name,
                vendor: row.vendor,
                model: row.model,
                status,
                resolution: row.resolution as u32,
                format,
                color_mode,
                page_size,
                brightness: row.brightness,
                contrast: row.contrast,
                output_filename: Some(row.filename),
                created_at: row.created_at,
                started_at: row.started_at,
                completed_at: row.completed_at,
                error_message: row.error_message,
                file_size,
                file_available: row.file_available,
            },
        )
    }
}

/// Round trip through the persisted row form: a row carrying exactly what
/// [`ScanJob::to_row`] writes for a job decodes back to that job, for
/// every status, the terminal ones included.
pub proof fn lemma_scan_row_round_trip(j: ScanJob, row: ScanRow)
    requires
        j.output_filename is Some,
        j.resolution <= i32::MAX,
        j.file_size is Some ==> j.file_size->0 <= i64::MAX,
        uuid_value(row.job_uuid@) == Some(j.id),
        row.scanner_name == j.scanner,
        row.vendor == j.vendor,
        row.model == j.model,
        row.filename == j.output_filename->0,
        row.status@ == spec_scan_status_token(j.status),
        row.format@ == spec_scan_format_token(j.format),
        row.color_mode@ == spec_color_mode_token(j.color_mode),
        row.page_size@ == spec_scan_page_size_token(j.page_size),
        row.created_at == j.created_at,
        row.started_at == j.started_at,
        row.completed_at == j.completed_at,
        row.error_message == j.error_message,
        row.resolution == j.resolution as i32,
        row.brightness == j.brightness,
        row.contrast == j.contrast,
        row.file_size == match j.file_size {
            Some(s) => Some(s as i64),
            None => None,
        },
        row.file_available == j.file_available,
    ensures
        spec_decode_scan_row(row) == Some(j),
{
    lemma_scan_status_round_trip(j.status);
    lemma_scan_format_round_trip(j.format);
    lemma_color_mode_round_trip(j.color_mode);
    lemma_scan_page_size_round_trip(j.page_size);
    let decoded = spec_decode_scan_row(row)->0;
    assert(decoded.resolution == j.resolution);
    match j.file_size {
        Some(s) => {
            assert(decoded.file_size == Some(s));
        },
        None => {},
    }
    assert(decoded == j);
}

/// For a well-formed job that has started, reaching a terminal status
/// stamps a completion time no earlier than the start time, which itself
/// is no earlier than creation.
pub proof fn lemma_scan_completion_order(j: ScanJob, status: ScanJobStatus, now: i64)
    requires
        j.wf(),
        0 <= now <= MAX_TIMESTAMP_MS,
        j.started_at is Some,
        scan_terminal(status),
    ensures
        ({
            let r = j.spec_set_status(status, now);
            &&& r.started_at is Some
            &&& r.completed_at is Some
            &&& r.started_at->0 <= r.completed_at->0
            &&& r.created_at <= r.completed_at->0
        }),
{
}

} // verus!
