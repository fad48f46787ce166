//! Job orchestration for a print/scan manager: the job state machine, the
//! FIFO dispatch queue with single-flight execution, change-notification
//! version counters, and the pure text processing behind device command
//! output and persisted job records.

pub mod api;
pub mod clock;
pub mod cups;
pub mod escputil;
pub mod events;
pub mod filename;
pub mod ids;
pub mod job;
pub mod print_job;
pub mod queue;
pub mod recent;
pub mod sane;
pub mod scan_job;
pub mod status;
pub mod text;

