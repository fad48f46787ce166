//! The plain data types shared with collaborators — devices, system
//! status, the uniform response envelope — and the printer-selection and
//! disk-space rules of the request handlers.

use vstd::prelude::*;
use vstd::string::*;
use crate::text::{
    all_digits, dec_val, join_strings, parse_u64, spec_join, spec_lines, spec_split_ws, split_lines,
    split_ws, str_eq, views,
};

verus! {

/// One printer as the print backend lists it.
pub struct Printer {
    pub name: String,
    pub vendor: String,
    pub model: String,
    pub description: String,
    pub status: String,
    pub location: Option<String>,
    pub is_default: bool,
}

/// One scanner as the scan backend lists it.
pub struct Scanner {
    pub name: String,
    pub vendor: String,
    pub model: String,
    pub device_type: String,
}

/// The system status summary shown on the dashboard.
pub struct SystemStatus {
    pub cups_available: bool,
    pub sane_available: bool,
    pub active_print_jobs: usize,
    pub active_scan_jobs: usize,
    pub disk_space_mb: Option<u64>,
    pub uptime_str: String,
}

/// The uniform success-or-error envelope every collaborator receives.
pub struct ApiResponse<T> {
    pub success: bool,
    pub message: Option<String>,
    pub data: Option<T>,
}

impl<T> ApiResponse<T> {
    /// A successful envelope carrying data and no message.
    pub fn success(data: T) -> (r: ApiResponse<T>)
        ensures
            r.success,
            r.message is None,
            r.data == Some(data),
    {
        ApiResponse { success: true, message: None, data: Some(data) }
    }

    /// A failed envelope carrying a message and no data.
    pub fn error(message: String) -> (r: ApiResponse<T>)
        ensures
            !r.success,
            r.message == Some(message),
            r.data is None,
    {
        ApiResponse { success: false, message: Some(message), data: None }
    }
}

/// The fixed system settings shown to collaborators.
pub struct Settings {
    pub default_resolution: u32,
    pub auto_cleanup: bool,
    pub max_file_size_mb: u64,
    pub supported_formats: Vec<String>,
}

/// The system settings, as the system currently fixes them.
pub fn default_settings() -> (r: Settings)
    ensures
        r.default_resolution == 300,
        r.auto_cleanup,
        r.max_file_size_mb == 50,
        views(r.supported_formats@) == seq!["pdf"@, "jpeg"@, "png"@, "tiff"@],
{
    let mut formats: Vec<String> = Vec::new();
    formats.push(String::from_str("pdf"));
    formats.push(String::from_str("jpeg"));
    formats.push(String::from_str("png"));
    formats.push(String::from_str("tiff"));
    proof {
        assert(views(formats@) =~= seq!["pdf"@, "jpeg"@, "png"@, "tiff"@]);
    }
    Settings {
        default_resolution: 300,
        auto_cleanup: true,
        max_file_size_mb: 50,
        supported_formats: formats,
    }
}

/// One scanner's line in the device listing.
pub open spec fn spec_scanner_line_text(s: Scanner) -> Seq<char> {
    "Scanner - Name: "@ + s.name@ + ", Vendor: "@ + s.vendor@ + ", Model: "@ + s.model@
}

/// One printer's line in the device listing.
pub open spec fn spec_printer_line_text(p: Printer) -> Seq<char> {
    "Printer - Name: "@ + p.name@ + ", Vendor: "@ + p.vendor@ + ", Model: "@ + p.model@
}

/// The device listing shown at startup: the scanners, then the printers,
/// one indented line each.
pub open spec fn spec_device_listing(scanners: Seq<Scanner>, printers: Seq<Printer>) -> Seq<char> {
    "Scanners:\n\t"@ + spec_join(
        scanners.map_values(|s: Scanner| spec_scanner_line_text(s)),
        "\n\t"@,
    ) + "\nPrinters:\n\t"@ + spec_join(
        printers.map_values(|p: Printer| spec_printer_line_text(p)),
        "\n\t"@,
    )
}

fn scanner_line_text(s: &Scanner) -> (r: String)
    ensures
        r@ == spec_scanner_line_text(*s),
{
    let mut out = String::from_str("Scanner - Name: ");
    out.append(s.name.as_str());
    out.append(", Vendor: ");
    out.append(s.vendor.as_str());
    out.append(", Model: ");
    out.append(s.model.as_str());
    proof {
        assert(out@ =~= spec_scanner_line_text(*s));
    }
    out
}

fn printer_line_text(p: &Printer) -> (r: String)
    ensures
        r@ == spec_printer_line_text(*p),
{
    let mut out = String::from_str("Printer - Name: ");
    out.append(p.name.as_str());
    out.append(", Vendor: ");
    out.append(p.vendor.as_str());
    out.append(", Model: ");
    out.append(p.model.as_str());
    proof {
        assert(out@ =~= spec_printer_line_text(*p));
    }
    out
}

/// Render the device listing, as [`spec_device_listing`] describes.
pub fn show_devices(scanners: &Vec<Scanner>, printers: &Vec<Printer>) -> (r: String)
    ensures
        r@ == spec_device_listing(scanners@, printers@),
{
    let mut scanner_lines: Vec<String> = Vec::new();
    let mut i: usize = 0;
    while i < scanners.len()
        invariant
            0 <= i <= scanners@.len(),
            scanner_lines@.len() == i,
            forall|j: int| 0 <= j < i ==> scanner_lines@[j]@ == spec_scanner_line_text(
                scanners@[j],
            ),
        decreases scanners@.len() - i,
    {
        scanner_lines.push(scanner_line_text(&scanners[i]));
        i += 1;
    }
    let mut printer_lines: Vec<String> = Vec::new();
    let mut k: usize = 0;
    while k < printers.len()
        invariant
            0 <= k <= printers@.len(),
            printer_lines@.len() == k,
            forall|j: int| 0 <= j < k ==> printer_lines@[j]@ == spec_printer_line_text(
                printers@[j],
            ),
        decreases printers@.len() - k,
    {
        printer_lines.push(printer_line_text(&printers[k]));
        k += 1;
    }
    let mut out = String::from_str("Scanners:\n\t");
    let joined_scanners = join_strings(&scanner_lines, "\n\t");
    out.append(joined_scanners.as_str());
    out.append("\nPrinters:\n\t");
    let joined_printers = join_strings(&printer_lines, "\n\t");
    out.append(joined_printers.as_str());
    proof {
        assert(views(scanner_lines@) =~= scanners@.map_values(
            |s: Scanner| spec_scanner_line_text(s),
        ));
        assert(views(printer_lines@) =~= printers@.map_values(
            |p: Printer| spec_printer_line_text(p),
        ));
        assert(out@ =~= spec_device_listing(scanners@, printers@));
    }
    out
}

/// Whether a submitted form flag is on: the values `true` and `on` count.
pub open spec fn spec_form_flag(v: Option<Seq<char>>, default: bool) -> bool {
    match v {
        Some(t) => t == "true"@ || t == "on"@,
        None => default,
    }
}

/// Read a submitted form flag, as [`spec_form_flag`] describes.
pub fn parse_form_flag(v: Option<&String>, default: bool) -> (r: bool)
    ensures
        r == spec_form_flag(
            match v {
                Some(s) => Some(s@),
                None => None,
            },
            default,
        ),
{
    match v {
        Some(s) => str_eq(s.as_str(), "true") || str_eq(s.as_str(), "on"),
        None => default,
    }
}

/// The index of the first default printer, or -1 when none is marked.
pub open spec fn spec_find_default(printers: Seq<Printer>) -> int
    decreases printers.len(),
{
    if printers.len() == 0 {
        -1
    } else if printers[0].is_default {
        0
    } else {
        let r = spec_find_default(printers.skip(1));
        if r < 0 {
            -1
        } else {
            1 + r
        }
    }
}

/// The name used when no printer is requested: the first default
/// printer's, else the first printer's, else the literal `default`.
pub open spec fn spec_fallback_printer(printers: Seq<Printer>) -> Seq<char> {
    if spec_find_default(printers) >= 0 {
        printers[spec_find_default(printers)].name@
    } else if printers.len() > 0 {
        printers[0].name@
    } else {
        "default"@
    }
}

/// Whether some printer carries the requested name.
pub open spec fn spec_has_printer(printers: Seq<Printer>, name: Seq<char>) -> bool {
    exists|i: int| 0 <= i < printers.len() && printers[i].name@ == name
}

/// The names of the listed printers.
pub open spec fn spec_printer_names(printers: Seq<Printer>) -> Seq<Seq<char>> {
    printers.map_values(|p: Printer| p.name@)
}

/// The outcome of printer selection, as [`choose_printer`] fixes it.
pub open spec fn spec_choose_printer(requested: Option<Seq<char>>, printers: Seq<Printer>) -> Result<
    Seq<char>,
    Seq<char>,
> {
    if printers.len() == 0 {
        Err("No printers available"@)
    } else {
        match requested {
            Some(name) => {
                if name.len() == 0 {
                    Ok(spec_fallback_printer(printers))
                } else if spec_has_printer(printers, name) {
                    Ok(name)
                } else {
                    Err(
                        "Printer '"@ + name + "' not found. Available printers: "@ + spec_join(
                            spec_printer_names(printers),
                            ", "@,
                        ),
                    )
                }
            },
            None => Ok(spec_fallback_printer(printers)),
        }
    }
}

/// The first default printer's name, else the first printer's, else the
/// literal fallback.
fn fallback_printer(printers: &Vec<Printer>) -> (r: String)
    ensures
        r@ == spec_fallback_printer(printers@),
{
    let mut i: usize = 0;
    while i < printers.len()
        invariant
            0 <= i <= printers@.len(),
            forall|j: int| 0 <= j < i ==> !printers@[j].is_default,
        decreases printers@.len() - i,
    {
        if printers[i].is_default {
            proof {
                lemma_find_default(printers@);
                let d = spec_find_default(printers@);
                if d != i {
                    assert(printers@[i as int].is_default);
                    if d < 0 {
                        assert(!printers@[i as int].is_default);
                    } else if d < i {
                        assert(printers@[d].is_default);
                        assert(!printers@[d].is_default);
                    } else {
                        assert(!printers@[i as int].is_default);
                    }
                    assert(false);
                }
            }
            return printers[i].name.clone();
        }
        i += 1;
    }
    proof {
        lemma_find_default(printers@);
        let d = spec_find_default(printers@);
        if d >= 0 {
            assert(printers@[d].is_default);
            assert(!printers@[d].is_default);
            assert(false);
        }
    }
    if printers.len() > 0 {
        printers[0].name.clone()
    } else {
        String::from_str("default")
    }
}

/// [`spec_find_default`] names the first default printer, when there is
/// one.
proof fn lemma_find_default(printers: Seq<Printer>)
    ensures
        spec_find_default(printers) >= 0 ==> 0 <= spec_find_default(printers) < printers.len()
            && printers[spec_find_default(printers)].is_default && forall|j: int|
            0 <= j < spec_find_default(printers) ==> !printers[j].is_default,
        spec_find_default(printers) < 0 ==> forall|j: int|
            0 <= j < printers.len() ==> !printers[j].is_default,
    decreases printers.len(),
{
    if printers.len() > 0 && !printers[0].is_default {
        lemma_find_default(printers.skip(1));
        let t = printers.skip(1);
        assert forall|j: int| 1 <= j < printers.len() implies printers[j] == t[j - 1] by {}
        if spec_find_default(t) >= 0 {
            assert(printers[1 + spec_find_default(t)] == t[spec_find_default(t)]);
        }
    }
}

/// Select the printer a submission will use, as [`spec_choose_printer`]
/// fixes: the requested printer when it exists, the default or first
/// printer when none (or an empty name) is requested, and an error when
/// there are no printers or the requested one is unknown.
pub fn choose_printer(requested: Option<&String>, printers: &Vec<Printer>) -> (r: Result<
    String,
    String,
>)
    ensures
        ({
            let req = match requested {
                Some(s) => Some(s@),
                None => None,
            };
            match r {
                Ok(name) => spec_choose_printer(req, printers@) == Ok::<Seq<char>, Seq<char>>(
                    name@,
                ),
                Err(m) => spec_choose_printer(req, printers@) == Err::<Seq<char>, Seq<char>>(m@),
            }
        }),
{
    if printers.len() == 0 {
        return Err(String::from_str("No printers available"));
    }
    match requested {
        Some(name) => {
            if name.as_str().unicode_len() == 0 {
                Ok(fallback_printer(printers))
            } else {
                let mut i: usize = 0;
                let mut found = false;
                while i < printers.len() && !found
                    invariant
                        0 <= i <= printers@.len(),
                        found ==> spec_has_printer(printers@, name@),
                        !found ==> forall|j: int| 0 <= j < i ==> printers@[j].name@ != name@,
                    decreases printers@.len() - i,
                {
                    if str_eq(printers[i].name.as_str(), name.as_str()) {
                        proof {
                            assert(printers@[i as int].name@ == name@);
                        }
                        found = true;
                    }
                    i += 1;
                }
                if found {
                    Ok(name.clone())
                } else {
                    proof {
                        if spec_has_printer(printers@, name@) {
                            let j = choose|j: int|
                                0 <= j < printers@.len() && printers@[j].name@ == name@;
                            assert(printers@[j].name@ != name@);
                        }
                    }
                    let mut names: Vec<String> = Vec::new();
                    let mut k: usize = 0;
                    while k < printers.len()
                        invariant
                            0 <= k <= printers@.len(),
                            names@.len() == k,
                            forall|j: int| 0 <= j < k ==> names@[j]@ == printers@[j].name@,
                        decreases printers@.len() - k,
                    {
                        names.push(printers[k].name.clone());
                        k += 1;
                    }
                    let mut msg = String::from_str("Printer '");
                    msg.append(name.as_str());
                    msg.append("' not found. Available printers: ");
                    let joined = join_strings(&names, ", ");
                    msg.append(joined.as_str());
                    proof {
                        assert(views(names@) =~= spec_printer_names(printers@));
                        assert(msg@ =~= "Printer '"@ + name@ + "' not found. Available printers: "@
                            + spec_join(spec_printer_names(printers@), ", "@));
                    }
                    Err(msg)
                }
            }
        },
        None => Ok(fallback_printer(printers)),
    }
}

/// The vendor and model of the named printer, from the listing.
pub fn printer_vendor_model(printers: &Vec<Printer>, name: &String) -> (r: Option<(String, String)>)
    ensures
        match r {
            Some(vm) => exists|i: int|
                0 <= i < printers@.len() && printers@[i].name@ == name@ && vm.0
                    == printers@[i].vendor && vm.1 == printers@[i].model,
            None => !spec_has_printer(printers@, name@),
        },
{
    let mut i: usize = 0;
    while i < printers.len()
        invariant
            0 <= i <= printers@.len(),
            forall|j: int| 0 <= j < i ==> printers@[j].name@ != name@,
        decreases printers@.len() - i,
    {
        if str_eq(printers[i].name.as_str(), name.as_str()) {
            proof {
                assert(printers@[i as int].name@ == name@);
            }
            return Some((printers[i].vendor.clone(), printers[i].model.clone()));
        }
        i += 1;
    }
    proof {
        if spec_has_printer(printers@, name@) {
            let j = choose|j: int| 0 <= j < printers@.len() && printers@[j].name@ == name@;
            assert(printers@[j].name@ != name@);
        }
    }
    None
}

/// What one line of the disk listing yields: the fourth whitespace token,
/// when there are at least four and it is a number.
pub open spec fn spec_df_line_value(line: Seq<char>) -> Option<u64> {
    let toks = spec_split_ws(line);
    if toks.len() >= 4 && toks[3].len() > 0 && all_digits(toks[3]) && dec_val(toks[3])
        <= u64::MAX {
        Some(dec_val(toks[3]) as u64)
    } else {
        None
    }
}

/// The first line, in order, that yields a value.
pub open spec fn spec_df_scan(lines: Seq<Seq<char>>) -> Option<u64>
    decreases lines.len(),
{
    if lines.len() == 0 {
        None
    } else {
        match spec_df_line_value(lines[0]) {
            Some(v) => Some(v),
            None => spec_df_scan(lines.skip(1)),
        }
    }
}

/// The available disk space a `df` listing reports: the first data line
/// (the header is skipped) whose fourth column is a number.
pub open spec fn spec_parse_disk_space(out: Seq<char>) -> Option<u64> {
    let lines = spec_lines(out);
    if lines.len() <= 1 {
        None
    } else {
        spec_df_scan(lines.skip(1))
    }
}

/// Read the available disk space out of a `df` listing, as
/// [`spec_parse_disk_space`] describes.
pub fn parse_disk_space(out: &str) -> (r: Option<u64>)
    ensures
        r == spec_parse_disk_space(out@),
{
    let lines = split_lines(out);
    if lines.len() <= 1 {
        return None;
    }
    let ghost lseq = spec_lines(out@).skip(1);
    let mut i: usize = 1;
    while i < lines.len()
        invariant
            1 <= i <= lines@.len(),
            views(lines@) == spec_lines(out@),
            lines@.len() > 1,
            lseq == spec_lines(out@).skip(1),
            spec_df_scan(lseq) == spec_df_scan(views(lines@).skip(i as int)),
        decreases lines@.len() - i,
    {
        let toks = split_ws(lines[i].as_str());
        let value = if toks.len() >= 4 {
            parse_u64(toks[3].as_str())
        } else {
            None
        };
        proof {
            let rest = views(lines@).skip(i as int);
            assert(rest[0] == lines@[i as int]@);
            assert(rest.skip(1) =~= views(lines@).skip(i + 1));
        }
        match value {
            Some(v) => {
                proof {
                    assert(spec_df_line_value(lines@[i as int]@) == Some(v));
                }
                return Some(v);
            },
            None => {
                proof {
                    assert(spec_df_line_value(lines@[i as int]@) is None);
                }
            },
        }
        i += 1;
    }
    proof {
        assert(views(lines@).skip(lines@.len() as int) =~= Seq::<Seq<char>>::empty());
    }
    None
}

} // verus!
