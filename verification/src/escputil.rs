//! Printer maintenance: which printer a maintenance command targets and
//! what a failed command reports. The process calls themselves stay
//! outside.

use vstd::prelude::*;
use vstd::string::*;
use crate::api::Printer;
use crate::text::str_eq;

verus! {

/// The handle on the maintenance tool. Availability checks and the
/// process calls themselves live with the caller.
pub struct MaintenanceService;

impl MaintenanceService {
    pub fn new() -> MaintenanceService {
        MaintenanceService
    }
}

/// The printer a maintenance command targets: the first listed printer,
/// or the word `none` when there is none.
pub fn maintenance_target(printers: &Vec<Printer>) -> (r: String)
    ensures
        printers@.len() > 0 ==> r@ == printers@[0].name@,
        printers@.len() == 0 ==> r@ == "none"@,
{
    if printers.len() > 0 {
        printers[0].name.clone()
    } else {
        String::from_str("none")
    }
}

/// The message a failed maintenance command reports, by the flag it was
/// run with.
pub open spec fn spec_maintenance_error(argument: Seq<char>) -> Seq<char> {
    if argument == "-n"@ {
        "Error during checking nozzle heads"@
    } else if argument == "-c"@ {
        "Error during cleaning nozzle heads"@
    } else {
        "Error executing escputil"@
    }
}

/// The message a failed maintenance command reports, as
/// [`spec_maintenance_error`] fixes it.
pub fn maintenance_error_message(argument: &str) -> (r: String)
    ensures
        r@ == spec_maintenance_error(argument@),
{
    if str_eq(argument, "-n") {
        String::from_str("Error during checking nozzle heads")
    } else if str_eq(argument, "-c") {
        String::from_str("Error during cleaning nozzle heads")
    } else {
        String::from_str("Error executing escputil")
    }
}

} // verus!
