//! The print job entity: its fields, well-formedness, status transitions
//! with timestamp stamping, and the persisted row form with its encode and
//! decode.

use vstd::prelude::*;
use vstd::string::*;
use crate::clock::{now_clamped, MAX_TIMESTAMP_MS};
use crate::ids::{fresh_id, id_string, parse_id, uuid_text, uuid_value};
use crate::status::{
    lemma_print_page_size_round_trip, lemma_print_status_round_trip, parse_print_page_size,
    parse_print_status, print_page_size_token, print_status_token, print_terminal,
    spec_parse_print_page_size, spec_parse_print_status, spec_print_page_size_token,
    spec_print_status_token, PrintJobStatus, PrintPageSize,
};
use crate::text::{rfind_char_spec, spec_rfind, substr_string};

verus! {

/// What a print submission may specify; everything is optional and
/// defaulted at job construction.
pub struct PrintRequest {
    pub printer: Option<String>,
    pub copies: Option<u32>,
    pub pages: Option<String>,
    pub duplex: Option<bool>,
    pub color: Option<bool>,
    pub page_size: Option<PrintPageSize>,
}

/// One print job, from submission to terminal status.
pub struct PrintJob {
    pub id: u128,
    pub filename: String,
    pub printer: String,
    pub vendor: String,
    pub model: String,
    pub status: PrintJobStatus,
    pub copies: u32,
    pub pages: Option<String>,
    pub duplex: bool,
    pub color: bool,
    pub created_at: i64,
    pub started_at: Option<i64>,
    pub completed_at: Option<i64>,
    pub error_message: Option<String>,
    pub cups_job_id: Option<i32>,
    pub page_size: PrintPageSize,
}

impl PrintJob {
    /// Well-formedness: timestamps are in range and ordered, and an error
    /// message implies a terminal status.
    pub open spec fn wf(self) -> bool {
        &&& 0 <= self.created_at <= MAX_TIMESTAMP_MS
        &&& match self.started_at {
            Some(t) => self.created_at <= t <= MAX_TIMESTAMP_MS,
            None => true,
        }
        &&& match self.completed_at {
            Some(t) => self.created_at <= t <= MAX_TIMESTAMP_MS,
            None => true,
        }
        &&& (self.started_at is Some && self.completed_at is Some) ==> self.started_at->0
            <= self.completed_at->0
        &&& self.error_message is Some ==> print_terminal(self.status)
    }

    /// The status update rule: the new status is taken as given;
    /// `started_at` is stamped on first entering `Processing` and
    /// `completed_at` on first reaching a terminal status, each clamped
    /// below by the timestamps already present.
    pub open spec fn spec_set_status(self, status: PrintJobStatus, now: i64) -> PrintJob {
        let started = if status == PrintJobStatus::Processing && self.started_at is None {
            Some(if now >= self.created_at { now } else { self.created_at })
        } else {
            self.started_at
        };
        let base = if self.started_at is Some && self.started_at->0 > self.created_at {
            self.started_at->0
        } else {
            self.created_at
        };
        let completed = if print_terminal(status) && self.completed_at is None {
            Some(if now >= base { now } else { base })
        } else {
            self.completed_at
        };
        PrintJob { status, started_at: started, completed_at: completed, ..self }
    }

    /// Advance the status, stamping timestamps with the given time.
    pub fn set_status_at(&mut self, status: PrintJobStatus, now: i64)
        requires
            0 <= now <= MAX_TIMESTAMP_MS,
        ensures
            *final(self) == old(self).spec_set_status(status, now),
            old(self).wf() && (old(self).error_message is Some ==> print_terminal(status)) && (
            status == PrintJobStatus::Processing && old(self).started_at is None ==> old(
                self,
            ).completed_at is None) ==> final(self).wf(),
    {
        self.status = status;
        match status {
            PrintJobStatus::Processing => {
                if self.started_at.is_none() {
                    let t = if now >= self.created_at {
                        now
                    } else {
                        self.created_at
                    };
                    self.started_at = Some(t);
                }
            },
            PrintJobStatus::Completed | PrintJobStatus::Failed | PrintJobStatus::Cancelled => {
                if self.completed_at.is_none() {
                    let base = match self.started_at {
                        Some(s) => {
                            if s > self.created_at {
                                s
                            } else {
                                self.created_at
                            }
                        },
                        None => self.created_at,
                    };
                    let t = if now >= base {
                        now
                    } else {
                        base
                    };
                    self.completed_at = Some(t);
                }
            },
            _ => {},
        }
    }

    /// Advance the status, stamping timestamps with the current time.
    pub fn set_status(&mut self, status: PrintJobStatus)
        ensures
            exists|t: i64|
                0 <= t <= MAX_TIMESTAMP_MS && *final(self) == old(self).spec_set_status(
                    status,
                    t,
                ),
            final(self).status == status,
            old(self).wf() && (old(self).error_message is Some ==> print_terminal(status)) && (
            status == PrintJobStatus::Processing && old(self).started_at is None ==> old(
                self,
            ).completed_at is None) ==> final(self).wf(),
    {
        let now = now_clamped();
        self.set_status_at(status, now);
    }

    /// The error rule: the message is recorded and the status forced to
    /// the terminal `Failed`, stamping `completed_at` as
    /// [`PrintJob::spec_set_status`] does.
    pub open spec fn spec_set_error(self, error: String, now: i64) -> PrintJob {
        (PrintJob { error_message: Some(error), ..self }).spec_set_status(
            PrintJobStatus::Failed,
            now,
        )
    }

    /// Record an error message and force the terminal `Failed` status.
    pub fn set_error_at(&mut self, error: String, now: i64)
        requires
            0 <= now <= MAX_TIMESTAMP_MS,
        ensures
            *final(self) == old(self).spec_set_error(error, now),
            old(self).wf() ==> final(self).wf(),
    {
        self.error_message = Some(error);
        self.set_status_at(PrintJobStatus::Failed, now);
    }

    /// Record an error message and force `Failed`, stamping with the
    /// current time.
    pub fn set_error(&mut self, error: String)
        ensures
            exists|t: i64|
                0 <= t <= MAX_TIMESTAMP_MS && *final(self) == old(self).spec_set_error(error, t),
            final(self).status == PrintJobStatus::Failed,
            final(self).error_message == Some(error),
            old(self).wf() ==> final(self).wf(),
    {
        let now = now_clamped();
        self.set_error_at(error, now);
    }

    /// Record the backend's job handle for this job.
    pub fn set_cups_job_id(&mut self, cups_job_id: i32)
        ensures
            *final(self) == (PrintJob { cups_job_id: Some(cups_job_id), ..*old(self) }),
    {
        self.cups_job_id = Some(cups_job_id);
    }

    /// Where the staged input file is stored.
    pub fn get_file_path(&self) -> (r: Option<String>)
        ensures
            r is Some,
            r->0@ == "uploads/"@ + self.filename@,
    {
        let mut p = String::from_str("uploads/");
        p.append(self.filename.as_str());
        Some(p)
    }

    /// Build a new queued print job from a submission, assigning a fresh
    /// identifier and the current creation time.
    pub fn new(filename: String, printer: String, vendor: String, model: String,
        request: PrintRequest) -> (r: PrintJob)
        ensures
            r.status == PrintJobStatus::Queued,
            r.filename == filename,
            r.printer == printer,
            r.vendor == vendor,
            r.model == model,
            r.copies == match request.copies {
                Some(c) => c,
                None => 1u32,
            },
            r.pages == request.pages,
            r.duplex == match request.duplex {
                Some(d) => d,
                None => false,
            },
            r.color == match request.color {
                Some(c) => c,
                None => true,
            },
            r.page_size == match request.page_size {
                Some(p) => p,
                None => PrintPageSize::A4,
            },
            r.started_at is None,
            r.completed_at is None,
            r.error_message is None,
            r.cups_job_id is None,
            0 <= r.created_at <= MAX_TIMESTAMP_MS,
            r.wf(),
    {
        PrintJob {
            id: fresh_id(),
            filename,
            printer,
            vendor,
            model,
            status: PrintJobStatus::Queued,
            copies: match request.copies {
                Some(c) => c,
                None => 1,
            },
            pages: request.pages,
            duplex: match request.duplex {
                Some(d) => d,
                None => false,
            },
            color: match request.color {
                Some(c) => c,
                None => true,
            },
            created_at: now_clamped(),
            started_at: None,
            completed_at: None,
            error_message: None,
            cups_job_id: None,
            page_size: match request.page_size {
                Some(p) => p,
                None => PrintPageSize::A4,
            },
        }
    }

    /// A field-for-field copy.
    pub fn duplicate(&self) -> (r: PrintJob)
        ensures
            r == *self,
    {
        PrintJob {
            id: self.id,
            filename: self.filename.clone(),
            printer: self.printer.clone(),
            vendor: self.vendor.clone(),
            model: self.model.clone(),
            status: self.status,
            copies: self.copies,
            pages: match &self.pages {
                Some(p) => Some(p.clone()),
                None => None,
            },
            duplex: self.duplex,
            color: self.color,
            created_at: self.created_at,
            started_at: self.started_at,
            completed_at: self.completed_at,
            error_message: match &self.error_message {
                Some(e) => Some(e.clone()),
                None => None,
            },
            cups_job_id: self.cups_job_id,
            page_size: self.page_size,
        }
    }
}

/// The extension of a bare file name: what follows the last dot, unless
/// the only dot is the leading character.
pub open spec fn spec_file_extension(name: Seq<char>) -> Option<Seq<char>> {
    let d = spec_rfind(name, '.');
    if d <= 0 {
        None
    } else {
        Some(name.skip(d + 1))
    }
}

/// The extension of a bare file name, as [`spec_file_extension`] gives it.
pub fn file_extension(name: &str) -> (r: Option<String>)
    ensures
        match r {
            Some(e) => spec_file_extension(name@) == Some(e@),
            None => spec_file_extension(name@) is None,
        },
{
    let len = name.unicode_len();
    match rfind_char_spec(name, '.') {
        Some(d) => {
            if d == 0 {
                None
            } else {
                proof {
                    crate::text::lemma_spec_rfind(name@, '.');
                }
                Some(substr_string(name, d + 1, len))
            }
        },
        None => None,
    }
}

/// The plain values a print job is persisted as: one row of the print-job
/// table.
pub struct PrintRow {
    pub job_uuid: String,
    pub cups_id_job: Option<i32>,
    pub printer_name: String,
    pub vendor: String,
    pub model: String,
    pub filename: String,
    pub filepath: Option<String>,
    pub status: String,
    pub created_at: i64,
    pub started_at: Option<i64>,
    pub completed_at: Option<i64>,
    pub error_message: Option<String>,
    pub copies: u32,
    pub pages_range: Option<String>,
    pub duplex: bool,
    pub color: bool,
    pub page_size: String,
    pub original_filename: String,
    pub mime_type: Option<String>,
}

/// The print job a persisted row denotes: both tokens must parse and the
/// identifier text must be a well-formed identifier.
pub open spec fn spec_decode_print_row(row: PrintRow) -> Option<PrintJob> {
    if spec_parse_print_status(row.status@) is None {
        None
    } else if spec_parse_print_page_size(row.page_size@) is None {
        None
    } else if uuid_value(row.job_uuid@) is None {
        None
    } else {
        Some(
            PrintJob {
                id: uuid_value(row.job_uuid@)->0,
                filename: row.filename,
                printer: row.printer_name,
                vendor: row.vendor,
                model: row.model,
                status: spec_parse_print_status(row.status@)->0,
                copies: row.copies,
                pages: row.pages_range,
                duplex: row.duplex,
                color: row.color,
                created_at: row.created_at,
                started_at: row.started_at,
                completed_at: row.completed_at,
                error_message: row.error_message,
                cups_job_id: row.cups_id_job,
                page_size: spec_parse_print_page_size(row.page_size@)->0,
            },
        )
    }
}

impl PrintJob {
    /// Encode this job as the row it is persisted as. The original file
    /// name is stored twice and the media type column holds the file
    /// name's extension.
    pub fn to_row(&self) -> (r: PrintRow)
        ensures
            r.job_uuid@ == uuid_text(self.id),
            uuid_value(r.job_uuid@) == Some(self.id),
            r.cups_id_job == self.cups_job_id,
            r.printer_name == self.printer,
            r.vendor == self.vendor,
            r.model == self.model,
            r.filename == self.filename,
            r.filepath is Some && r.filepath->0@ == "uploads/"@ + self.filename@,
            r.status@ == spec_print_status_token(self.status),
            r.created_at == self.created_at,
            r.started_at == self.started_at,
            r.completed_at == self.completed_at,
            r.error_message == self.error_message,
            r.copies == self.copies,
            r.pages_range == self.pages,
            r.duplex == self.duplex,
            r.color == self.color,
            r.page_size@ == spec_print_page_size_token(self.page_size),
            r.original_filename == self.filename,
            match r.mime_type {
                Some(e) => spec_file_extension(self.filename@) == Some(e@),
                None => spec_file_extension(self.filename@) is None,
            },
    {
        PrintRow {
            job_uuid: id_string(self.id),
            cups_id_job: self.cups_job_id,
            printer_name: self.printer.clone(),
            vendor: self.vendor.clone(),
            model: self.model.clone(),
            filename: self.filename.clone(),
            filepath: self.get_file_path(),
            status: String::from_str(print_status_token(self.status)),
            created_at: self.created_at,
            started_at: self.started_at,
            completed_at: self.completed_at,
            error_message: match &self.error_message {
                Some(e) => Some(e.clone()),
                None => None,
            },
            copies: self.copies,
            pages_range: match &self.pages {
                Some(p) => Some(p.clone()),
                None => None,
            },
            duplex: self.duplex,
            color: self.color,
            page_size: String::from_str(print_page_size_token(self.page_size)),
            original_filename: self.filename.clone(),
            mime_type: file_extension(self.filename.as_str()),
        }
    }

    /// Decode a persisted row back into a print job, as
    /// [`spec_decode_print_row`] describes. Each rejected row names the
    /// field that could not be read; an unrecognized page size reports the
    /// same message as an unrecognized status, as the store always has.
    pub fn from_row(row: PrintRow) -> (r: Result<PrintJob, String>)
        ensures
            match r {
                Ok(j) => spec_decode_print_row(row) == Some(j),
                Err(_) => spec_decode_print_row(row) is None,
            },
            spec_parse_print_status(row.status@) is None ==> r is Err && r->Err_0@
                == "Unrecognized status"@,
    {
        let status = match parse_print_status(row.status.as_str()) {
            Some(s) => s,
            None => {
                return Err(String::from_str("Unrecognized status"));
            },
        };
        let page_size = match parse_print_page_size(row.page_size.as_str()) {
            Some(p) => p,
            None => {
                return Err(String::from_str("Unrecognized status"));
            },
        };
        let id = match parse_id(row.job_uuid.as_str()) {
            Some(v) => v,
            None => {
                return Err(String::from_str("Unrecognized job id"));
            },
        };
        Ok(
            PrintJob {
                id,
                filename: row.filename,
                printer: row.printer_name,
                vendor: row.vendor,
                model: row.model,
                status,
                copies: row.copies,
                pages: row.pages_range,
                duplex: row.duplex,
                color: row.color,
                created_at: row.created_at,
                started_at: row.started_at,
                completed_at: row.completed_at,
                error_message: row.error_message,
                cups_job_id: row.cups_id_job,
                page_size,
            },
        )
    }
}

/// For a well-formed job that has started, reaching a terminal status
/// stamps a completion time no earlier than the start time, which itself
/// is no earlier than creation.
pub proof fn lemma_print_completion_order(j: PrintJob, status: PrintJobStatus, now: i64)
    requires
        j.wf(),
        0 <= now <= MAX_TIMESTAMP_MS,
        j.started_at is Some,
        print_terminal(status),
    ensures
        ({
            let r = j.spec_set_status(status, now);
            &&& r.started_at is Some
            &&& r.completed_at is Some
            &&& r.started_at->0 <= r.completed_at->0
            &&& r.created_at <= r.completed_at->0
        }),
{
}

/// Round trip through the persisted row form: a row carrying exactly what
/// [`PrintJob::to_row`] writes for a job decodes back to that job, for
/// every status, the terminal ones included.
pub proof fn lemma_print_row_round_trip(j: PrintJob, row: PrintRow)
    requires
        uuid_value(row.job_uuid@) == Some(j.id),
        row.cups_id_job == j.cups_job_id,
        row.printer_name == j.printer,
        row.vendor == j.vendor,
        row.model == j.model,
        row.filename == j.filename,
        row.status@ == spec_print_status_token(j.status),
        row.page_size@ == spec_print_page_size_token(j.page_size),
        row.created_at == j.created_at,
        row.started_at == j.started_at,
        row.completed_at == j.completed_at,
        row.error_message == j.error_message,
        row.copies == j.copies,
        row.pages_range == j.pages,
        row.duplex == j.duplex,
        row.color == j.color,
    ensures
        spec_decode_print_row(row) == Some(j),
{
    lemma_print_status_round_trip(j.status);
    lemma_print_page_size_round_trip(j.page_size);
    assert(spec_decode_print_row(row)->0 == j);
}

} // verus!
