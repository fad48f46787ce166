//! The print backend's text protocol: parsing printer listings, job
//! listings and submission replies, building the submission argument
//! list, and the job-status decision. The process calls themselves stay
//! outside; everything here is a function from text to values.

use vstd::prelude::*;
use vstd::string::*;
use crate::api::Printer;
use crate::print_job::PrintJob;
use crate::status::{print_page_size_token, spec_print_page_size_token};
use crate::text::{
    capitalize, contains_seq, contains_sub, find_char, i32_string, join_strings, parse_i32,
    rfind_char_spec, spec_capitalize, spec_dec_string, spec_find, spec_join, spec_lines,
    spec_rfind, spec_split, spec_split_ws, spec_trim, split_char, split_lines, split_ws,
    starts_with, substr_string, trim, u64_string, views, all_digits, dec_val,
};

verus! {

/// The handle on the print backend. Availability checks and the process
/// calls themselves live with the caller; the parsing of everything the
/// backend prints is here.
pub struct CupsService;

impl CupsService {
    pub fn new() -> CupsService {
        CupsService
    }
}

/// The ghost form of a [`Printer`]: the same fields as character
/// sequences.
pub ghost struct PrinterView {
    pub name: Seq<char>,
    pub vendor: Seq<char>,
    pub model: Seq<char>,
    pub description: Seq<char>,
    pub status: Seq<char>,
    pub location: Option<Seq<char>>,
    pub is_default: bool,
}

impl View for Printer {
    type V = PrinterView;

    open spec fn view(&self) -> PrinterView {
        PrinterView {
            name: self.name@,
            vendor: self.vendor@,
            model: self.model@,
            description: self.description@,
            status: self.status@,
            location: match self.location {
                Some(l) => Some(l@),
                None => None,
            },
            is_default: self.is_default,
        }
    }
}

/// The views of a vector of printers.
pub open spec fn printer_views(v: Seq<Printer>) -> Seq<PrinterView> {
    v.map_values(|p: Printer| p@)
}

/// The printer name on a listing line: what stands between the
/// `printer ` prefix and the next space. A line without both yields
/// nothing.
pub open spec fn spec_printer_line_name(line: Seq<char>) -> Option<Seq<char>> {
    if line.len() >= 8 && line.subrange(0, 8) == "printer "@ {
        let rest = line.skip(8);
        if spec_find(rest, ' ') >= 0 {
            Some(rest.take(spec_find(rest, ' ')))
        } else {
            None
        }
    } else {
        None
    }
}

/// The status word on a printer listing line: the first of `idle`,
/// `printing`, `stopped` the line mentions, else `unknown`.
pub open spec fn spec_printer_line_status(line: Seq<char>) -> Seq<char> {
    if contains_seq(line, "idle"@) {
        "idle"@
    } else if contains_seq(line, "printing"@) {
        "printing"@
    } else if contains_seq(line, "stopped"@) {
        "stopped"@
    } else {
        "unknown"@
    }
}

/// The vendor encoded in a printer name: its first underscore-separated
/// part, capitalized.
pub open spec fn spec_vendor_of(name: Seq<char>) -> Seq<char> {
    spec_capitalize(spec_split(name, '_')[0])
}

/// The model encoded in a printer name: its remaining parts, each
/// capitalized, joined with spaces.
pub open spec fn spec_model_of(name: Seq<char>) -> Seq<char> {
    spec_join(spec_split(name, '_').skip(1).map_values(|p: Seq<char>| spec_capitalize(p)), " "@)
}

/// The printer a listing line describes, before the default marking: its
/// description starts as its name and its location is unknown, both to
/// be supplied by separate queries.
pub open spec fn spec_printer_of(line: Seq<char>) -> PrinterView {
    let name = spec_printer_line_name(line)->0;
    PrinterView {
        name,
        vendor: spec_vendor_of(name),
        model: spec_model_of(name),
        description: name,
        status: spec_printer_line_status(line),
        location: None,
        is_default: false,
    }
}

/// One pass over the listing lines, left to right: printer lines append
/// a printer, the default-destination line records the default, an
/// error line from the listing tool fails the whole parse.
pub open spec fn spec_scan_printers(
    lines: Seq<Seq<char>>,
    acc: Seq<PrinterView>,
    def: Option<Seq<char>>,
) -> Result<(Seq<PrinterView>, Option<Seq<char>>), ()>
    decreases lines.len(),
{
    if lines.len() == 0 {
        Ok((acc, def))
    } else {
        let line = lines[0];
        if spec_printer_line_name(line) is Some {
            spec_scan_printers(lines.skip(1), acc.push(spec_printer_of(line)), def)
        } else if line.len() >= 28 && line.subrange(0, 28) == "system default destination: "@ {
            spec_scan_printers(lines.skip(1), acc, Some(spec_trim(line.skip(28))))
        } else if line.len() >= 8 && line.subrange(0, 8) == "lpstat: "@ {
            Err(())
        } else {
            spec_scan_printers(lines.skip(1), acc, def)
        }
    }
}

/// The index of the first printer carrying the given name, or -1.
pub open spec fn spec_first_named(ps: Seq<PrinterView>, name: Seq<char>) -> int
    decreases ps.len(),
{
    if ps.len() == 0 {
        -1
    } else if ps[0].name == name {
        0
    } else {
        let r = spec_first_named(ps.skip(1), name);
        if r < 0 {
            -1
        } else {
            1 + r
        }
    }
}

/// The default marking: the first printer named as the recorded default
/// destination, if any, is marked.
pub open spec fn spec_mark_default(ps: Seq<PrinterView>, def: Option<Seq<char>>) -> Seq<
    PrinterView,
> {
    match def {
        Some(name) => {
            let i = spec_first_named(ps, name);
            if i >= 0 {
                ps.update(i, PrinterView { is_default: true, ..ps[i] })
            } else {
                ps
            }
        },
        None => ps,
    }
}

/// What a successful printer listing parses to.
pub open spec fn spec_parse_printers(out: Seq<char>) -> Result<Seq<PrinterView>, ()> {
    let r = spec_scan_printers(spec_lines(out), Seq::<PrinterView>::empty(), None);
    if r is Err {
        Err(())
    } else {
        Ok(spec_mark_default(r->Ok_0.0, r->Ok_0.1))
    }
}

/// [`spec_first_named`] names the first printer with the name, when
/// there is one.
proof fn lemma_first_named(ps: Seq<PrinterView>, name: Seq<char>)
    ensures
        spec_first_named(ps, name) >= 0 ==> 0 <= spec_first_named(ps, name) < ps.len()
            && ps[spec_first_named(ps, name)].name == name && forall|j: int|
            0 <= j < spec_first_named(ps, name) ==> ps[j].name != name,
        spec_first_named(ps, name) < 0 ==> forall|j: int| 0 <= j < ps.len() ==> ps[j].name != name,
    decreases ps.len(),
{
    if ps.len() > 0 && ps[0].name != name {
        lemma_first_named(ps.skip(1), name);
        let t = ps.skip(1);
        assert forall|j: int| 1 <= j < ps.len() implies ps[j] == t[j - 1] by {}
        if spec_first_named(t, name) >= 0 {
            assert(ps[1 + spec_first_named(t, name)] == t[spec_first_named(t, name)]);
        }
    }
}

/// A field-for-field copy of a printer.
fn duplicate_printer(p: &Printer) -> (r: Printer)
    ensures
        r@ == p@,
        r.is_default == p.is_default,
{
    Printer {
        name: p.name.clone(),
        vendor: p.vendor.clone(),
        model: p.model.clone(),
        description: p.description.clone(),
        status: p.status.clone(),
        location: match &p.location {
            Some(l) => Some(l.clone()),
            None => None,
        },
        is_default: p.is_default,
    }
}

/// Parse one printer listing line into a printer, when it is one.
fn parse_printer_line(line: &str) -> (r: Option<Printer>)
    ensures
        match r {
            Some(p) => spec_printer_line_name(line@) is Some && p@ == spec_printer_of(line@),
            None => spec_printer_line_name(line@) is None,
        },
{
    proof {
        reveal_strlit("printer ");
    }
    if !starts_with(line, "printer ") {
        return None;
    }
    let len = line.unicode_len();
    let rest = substr_string(line, 8, len);
    proof {
        assert(line@.subrange(0, 8) =~= "printer "@);
        assert(rest@ =~= line@.skip(8));
    }
    let space = match find_char(rest.as_str(), ' ') {
        Some(i) => i,
        None => {
            return None;
        },
    };
    let name = substr_string(rest.as_str(), 0, space);
    proof {
        assert(name@ =~= line@.skip(8).take(spec_find(line@.skip(8), ' ')));
    }
    let status = if contains_sub(line, "idle") {
        String::from_str("idle")
    } else if contains_sub(line, "printing") {
        String::from_str("printing")
    } else if contains_sub(line, "stopped") {
        String::from_str("stopped")
    } else {
        String::from_str("unknown")
    };
    let parts = split_char(name.as_str(), '_');
    let vendor = capitalize(parts[0].as_str());
    let mut model_parts: Vec<String> = Vec::new();
    let mut i: usize = 1;
    proof {
        crate::text::lemma_split_len(name@, '_');
    }
    while i < parts.len()
        invariant
            1 <= i <= parts@.len(),
            views(parts@) == spec_split(name@, '_'),
            model_parts@.len() == i - 1,
            forall|j: int| 0 <= j < i - 1 ==> model_parts@[j]@ == spec_capitalize(
                views(parts@).skip(1)[j],
            ),
        decreases parts@.len() - i,
    {
        let c = capitalize(parts[i].as_str());
        proof {
            assert(views(parts@).skip(1)[i - 1] == views(parts@)[i as int]);
        }
        model_parts.push(c);
        i += 1;
    }
    let model = join_strings(&model_parts, " ");
    proof {
        let target = spec_split(name@, '_').skip(1).map_values(|p: Seq<char>| spec_capitalize(p));
        assert forall|j: int| 0 <= j < model_parts@.len() implies views(model_parts@)[j]
            == target[j] by {
            assert(views(model_parts@)[j] == model_parts@[j]@);
        }
        assert(views(model_parts@) =~= target);
    }
    let pr = Printer {
        name: substr_string(name.as_str(), 0, space),
        vendor,
        model,
        description: name,
        status,
        location: None,
        is_default: false,
    };
    proof {
        let target = spec_printer_of(line@);
        assert(pr@.name =~= target.name);
        assert(pr@.vendor =~= target.vendor);
        assert(pr@.model =~= target.model);
        assert(pr@.description =~= target.description);
        assert(pr@.status =~= target.status);
        assert(pr@ == target);
    }
    Some(pr)
}

/// Parse the printer listing, as [`spec_parse_printers`] describes. An
/// error line from the listing tool rejects the listing with the
/// message that no printer is available.
pub fn parse_printers(out: &str) -> (r: Result<Vec<Printer>, String>)
    ensures
        match r {
            Ok(ps) => spec_parse_printers(out@) == Ok::<Seq<PrinterView>, ()>(
                printer_views(ps@),
            ),
            Err(m) => spec_parse_printers(out@) is Err && m@ == "No printer is available"@,
        },
{
    let lines = split_lines(out);
    let mut printers: Vec<Printer> = Vec::new();
    let mut default_name: Option<String> = None;
    let mut i: usize = 0;
    let ghost all = spec_lines(out@);
    proof {
        assert(all.skip(0) =~= all);
        assert(printer_views(printers@) =~= Seq::<PrinterView>::empty());
    }
    while i < lines.len()
        invariant
            0 <= i <= lines@.len(),
            all == spec_lines(out@),
            views(lines@) == all,
            spec_scan_printers(all, Seq::<PrinterView>::empty(), None) == spec_scan_printers(
                all.skip(i as int),
                printer_views(printers@),
                match default_name {
                    Some(d) => Some(d@),
                    None => None,
                },
            ),
        decreases lines@.len() - i,
    {
        let line = &lines[i];
        proof {
            assert(all.skip(i as int)[0] == lines@[i as int]@);
            assert(all.skip(i as int).skip(1) =~= all.skip(i + 1));
            reveal_strlit("system default destination: ");
            reveal_strlit("lpstat: ");
        }
        match parse_printer_line(line.as_str()) {
            Some(p) => {
                proof {
                    assert(printer_views(printers@.push(p)) =~= printer_views(printers@).push(p@));
                }
                printers.push(p);
            },
            None => {
                if starts_with(line.as_str(), "system default destination: ") {
                    let len = line.as_str().unicode_len();
                    let tail = substr_string(line.as_str(), 28, len);
                    let trimmed = trim(tail.as_str());
                    proof {
                        assert(line@.subrange(0, 28) =~= "system default destination: "@);
                        assert(tail@ =~= line@.skip(28));
                    }
                    default_name = Some(trimmed);
                } else if starts_with(line.as_str(), "lpstat: ") {
                    proof {
                        let cur = all.skip(i as int);
                        assert(spec_printer_line_name(cur[0]) is None);
                        assert(!(cur[0].len() >= 28 && cur[0].subrange(0, 28)
                            == "system default destination: "@));
                        assert(cur[0].len() >= 8 && cur[0].subrange(0, 8) == "lpstat: "@);
                        assert(spec_scan_printers(
                            cur,
                            printer_views(printers@),
                            match default_name {
                                Some(d) => Some(d@),
                                None => None,
                            },
                        ) == Err::<(Seq<PrinterView>, Option<Seq<char>>), ()>(()));
                        assert(spec_scan_printers(all, Seq::<PrinterView>::empty(), None)
                            == Err::<(Seq<PrinterView>, Option<Seq<char>>), ()>(()));
                        assert(spec_parse_printers(out@) is Err);
                    }
                    return Err(String::from_str("No printer is available"));
                }
            },
        }
        i += 1;
    }
    proof {
        assert(all.skip(lines@.len() as int) =~= Seq::<Seq<char>>::empty());
    }
    // Mark the first printer named as the default destination.
    match default_name {
        Some(dname) => {
            let ghost before = printer_views(printers@);
            proof {
                lemma_first_named(before, dname@);
            }
            let mut k: usize = 0;
            let mut result: Vec<Printer> = Vec::new();
            let mut marked = false;
            while k < printers.len()
                invariant
                    0 <= k <= printers@.len(),
                    before == printer_views(printers@),
                    result@.len() == k,
                    !marked ==> forall|j: int| 0 <= j < k ==> before[j].name != dname@,
                    !marked ==> forall|j: int|
                        0 <= j < k ==> printer_views(result@)[j] == before[j],
                    marked ==> 0 <= spec_first_named(before, dname@) < k && forall|j: int|
                        0 <= j < k ==> printer_views(result@)[j] == spec_mark_default(
                            before,
                            Some(dname@),
                        )[j],
                decreases printers@.len() - k,
            {
                let p = &printers[k];
                if !marked && crate::text::str_eq(p.name.as_str(), dname.as_str()) {
                    proof {
                        lemma_first_named(before, dname@);
                        let f = spec_first_named(before, dname@);
                        assert(before[k as int].name == dname@);
                        if f != k {
                            if f < 0 || f > k {
                                assert(before[k as int].name != dname@);
                            } else {
                                assert(before[f].name == dname@);
                                assert(before[f].name != dname@);
                            }
                            assert(false);
                        }
                    }
                    let mut mp = duplicate_printer(p);
                    mp.is_default = true;
                    proof {
                        let target = spec_mark_default(before, Some(dname@));
                        assert(mp@ == (PrinterView { is_default: true, ..before[k as int] }));
                        assert(target[k as int] == mp@);
                        assert forall|j: int| 0 <= j < k implies printer_views(
                            result@.push(mp),
                        )[j] == target[j] by {
                            assert(printer_views(result@.push(mp))[j] == printer_views(
                                result@,
                            )[j]);
                            assert(target[j] == before[j]);
                        }
                        assert(printer_views(result@.push(mp))[k as int] == mp@);
                    }
                    result.push(mp);
                    marked = true;
                } else {
                    let cp = duplicate_printer(p);
                    proof {
                        if !marked {
                            assert(before[k as int].name != dname@);
                            assert forall|j: int| 0 <= j < k + 1 implies printer_views(
                                result@.push(cp),
                            )[j] == before[j] by {
                                if j < k {
                                    assert(printer_views(result@.push(cp))[j] == printer_views(
                                        result@,
                                    )[j]);
                                } else {
                                    assert(printer_views(result@.push(cp))[j] == cp@);
                                }
                            }
                        } else {
                            lemma_first_named(before, dname@);
                            let target = spec_mark_default(before, Some(dname@));
                            assert(spec_first_named(before, dname@) != k) by {
                                lemma_first_named(before, dname@);
                                if spec_first_named(before, dname@) == k {
                                    assert(before[k as int].name == dname@);
                                }
                            }
                            assert(target[k as int] == before[k as int]);
                            assert forall|j: int| 0 <= j < k + 1 implies printer_views(
                                result@.push(cp),
                            )[j] == target[j] by {
                                if j < k {
                                    assert(printer_views(result@.push(cp))[j] == printer_views(
                                        result@,
                                    )[j]);
                                } else {
                                    assert(printer_views(result@.push(cp))[j] == cp@);
                                }
                            }
                        }
                    }
                    result.push(cp);
                }
                k += 1;
            }
            proof {
                let target = spec_mark_default(before, Some(dname@));
                if marked {
                    assert(printer_views(result@) =~= target);
                } else {
                    lemma_first_named(before, dname@);
                    if spec_first_named(before, dname@) >= 0 {
                        assert(before[spec_first_named(before, dname@)].name != dname@);
                        assert(false);
                    }
                    assert(printer_views(result@) =~= before);
                    assert(target == before);
                }
            }
            Ok(result)
        },
        None => {
            Ok(printers)
        },
    }
}

/// The argument list a print submission hands to the `lp` command: the
/// destination, the copy count when above one, the page range when one
/// was given, the duplex option, the ink mode, the media size, and the
/// staged file.
pub open spec fn spec_lp_args(j: PrintJob, file_path: Seq<char>) -> Seq<Seq<char>> {
    seq!["-d"@, j.printer@] + (if j.copies > 1 {
        seq!["-n"@, spec_dec_string(j.copies as nat)]
    } else {
        Seq::<Seq<char>>::empty()
    }) + (match j.pages {
        Some(p) => if p@.len() > 0 {
            seq!["-P"@, p@]
        } else {
            Seq::<Seq<char>>::empty()
        },
        None => Seq::<Seq<char>>::empty(),
    }) + (if j.duplex {
        seq!["-o"@, "sides=two -sided-long-edge"@]
    } else {
        Seq::<Seq<char>>::empty()
    }) + seq!["-o"@, "Ink="@ + (if j.color { "COLOR"@ } else { "MONO"@ })] + seq![
        "-o"@,
        "PageSize="@ + spec_capitalize(spec_print_page_size_token(j.page_size)),
    ] + seq![file_path]
}

/// Build the submission argument list, as [`spec_lp_args`] describes.
pub fn build_lp_args(job: &PrintJob, file_path: &str) -> (r: Vec<String>)
    ensures
        views(r@) == spec_lp_args(*job, file_path@),
{
    let mut args: Vec<String> = Vec::new();
    args.push(String::from_str("-d"));
    args.push(job.printer.clone());
    if job.copies > 1 {
        args.push(String::from_str("-n"));
        args.push(u64_string(job.copies as u64));
    }
    match &job.pages {
        Some(p) => {
            if p.as_str().unicode_len() > 0 {
                args.push(String::from_str("-P"));
                args.push(p.clone());
            }
        },
        None => {},
    }
    if job.duplex {
        args.push(String::from_str("-o"));
        args.push(String::from_str("sides=two -sided-long-edge"));
    }
    args.push(String::from_str("-o"));
    let mut ink = String::from_str("Ink=");
    if job.color {
        ink.append("COLOR");
    } else {
        ink.append("MONO");
    }
    args.push(ink);
    args.push(String::from_str("-o"));
    let mut media = String::from_str("PageSize=");
    let cap = capitalize(print_page_size_token(job.page_size));
    media.append(cap.as_str());
    args.push(media);
    args.push(String::from_str(file_path));
    proof {
        assert(views(args@) =~= spec_lp_args(*job, file_path@));
    }
    args
}

/// The backend job handle in a submission reply: the digits after the
/// last dash of the fourth whitespace token.
pub open spec fn spec_lp_job_id(out: Seq<char>) -> Option<i32> {
    let toks = spec_split_ws(out);
    if toks.len() > 3 {
        let tok = toks[3];
        let dash = spec_rfind(tok, '-');
        let idpart = if dash >= 0 {
            tok.skip(dash + 1)
        } else {
            tok
        };
        if idpart.len() > 0 && all_digits(idpart) && dec_val(idpart) <= i32::MAX {
            Some(dec_val(idpart) as i32)
        } else {
            None
        }
    } else {
        None
    }
}

/// Read the backend job handle out of a submission reply, as
/// [`spec_lp_job_id`] describes. A reply without a fourth token carries
/// no handle at all; one whose handle is not a number fails the parse.
pub fn parse_lp_job_id(out: &str) -> (r: Result<i32, String>)
    ensures
        match r {
            Ok(id) => spec_lp_job_id(out@) == Some(id),
            Err(_) => spec_lp_job_id(out@) is None,
        },
        spec_split_ws(out@).len() <= 3 ==> r is Err && r->Err_0@ == "No job ID returned"@,
        spec_split_ws(out@).len() > 3 && spec_lp_job_id(out@) is None ==> r is Err && r->Err_0@
            == "Prase ID error"@,
{
    let toks = split_ws(out);
    if toks.len() <= 3 {
        return Err(String::from_str("No job ID returned"));
    }
    let tok = &toks[3];
    let len = tok.as_str().unicode_len();
    let idpart = match rfind_char_spec(tok.as_str(), '-') {
        Some(d) => {
            proof {
                crate::text::lemma_spec_rfind(tok@, '-');
            }
            substr_string(tok.as_str(), d + 1, len)
        },
        None => substr_string(tok.as_str(), 0, len),
    };
    proof {
        let dash = spec_rfind(tok@, '-');
        if dash >= 0 {
            assert(idpart@ =~= tok@.skip(dash + 1));
        } else {
            assert(idpart@ =~= tok@);
        }
        assert(tok@ == spec_split_ws(out@)[3]);
    }
    match parse_i32(idpart.as_str()) {
        Some(id) => Ok(id),
        None => Err(String::from_str("Prase ID error")),
    }
}

/// Whether a job listing line names the job: the first whitespace token,
/// after its last dash, is exactly the job handle's digits.
pub open spec fn spec_line_has_job(line: Seq<char>, id: nat) -> bool {
    let toks = spec_split_ws(line);
    toks.len() > 0 && {
        let t = toks[0];
        let dash = spec_rfind(t, '-');
        let idpart = if dash >= 0 {
            t.skip(dash + 1)
        } else {
            t
        };
        idpart == spec_dec_string(id)
    }
}

/// Whether any line of a job listing names the job.
pub open spec fn spec_output_lists_job(out: Seq<char>, id: nat) -> bool {
    exists|i: int|
        0 <= i < spec_lines(out).len() && spec_line_has_job(#[trigger] spec_lines(out)[i], id)
}

/// Search a job listing for the job, as [`spec_output_lists_job`]
/// describes.
pub fn lpstat_lists_job(out: &str, job_id: i32) -> (r: bool)
    requires
        job_id >= 0,
    ensures
        r == spec_output_lists_job(out@, job_id as nat),
{
    let id_text = i32_string(job_id);
    let lines = split_lines(out);
    let mut i: usize = 0;
    while i < lines.len()
        invariant
            0 <= i <= lines@.len(),
            views(lines@) == spec_lines(out@),
            id_text@ == spec_dec_string(job_id as nat),
            forall|j: int| 0 <= j < i ==> !spec_line_has_job(#[trigger] spec_lines(out@)[j],
                job_id as nat,
            ),
        decreases lines@.len() - i,
    {
        let line = &lines[i];
        let toks = split_ws(line.as_str());
        if toks.len() > 0 {
            let t = &toks[0];
            let tlen = t.as_str().unicode_len();
            let idpart = match rfind_char_spec(t.as_str(), '-') {
                Some(d) => {
                    proof {
                        crate::text::lemma_spec_rfind(t@, '-');
                    }
                    substr_string(t.as_str(), d + 1, tlen)
                },
                None => substr_string(t.as_str(), 0, tlen),
            };
            proof {
                let dash = spec_rfind(t@, '-');
                if dash >= 0 {
                    assert(idpart@ =~= t@.skip(dash + 1));
                } else {
                    assert(idpart@ =~= t@);
                }
            }
            if crate::text::str_eq(idpart.as_str(), id_text.as_str()) {
                proof {
                    assert(spec_line_has_job(spec_lines(out@)[i as int], job_id as nat));
                }
                return true;
            }
        }
        proof {
            assert(!spec_line_has_job(spec_lines(out@)[i as int], job_id as nat));
        }
        i += 1;
    }
    proof {
        if spec_output_lists_job(out@, job_id as nat) {
            let j = choose|j: int|
                0 <= j < spec_lines(out@).len() && spec_line_has_job(
                    #[trigger] spec_lines(out@)[j],
                    job_id as nat,
                );
            assert(!spec_line_has_job(spec_lines(out@)[j], job_id as nat));
        }
    }
    false
}

/// The job-status decision over the two listings the backend offers:
/// a job named in the active listing is `active`; failing that, a
/// failed completed-listing query is an error; a job named in the
/// completed listing is `completed`; otherwise the job is not found.
pub fn job_status_decision(
    active_ok: bool,
    active_out: &str,
    completed_ok: bool,
    completed_out: &str,
    job_id: i32,
) -> (r: Result<String, String>)
    requires
        job_id >= 0,
    ensures
        active_ok && spec_output_lists_job(active_out@, job_id as nat) ==> r is Ok && r->Ok_0@
            == "active"@,
        !(active_ok && spec_output_lists_job(active_out@, job_id as nat)) && !completed_ok ==> r
            is Err && r->Err_0@ == "Failed to get completed job status"@,
        !(active_ok && spec_output_lists_job(active_out@, job_id as nat)) && completed_ok
            && spec_output_lists_job(completed_out@, job_id as nat) ==> r is Ok && r->Ok_0@
            == "completed"@,
        !(active_ok && spec_output_lists_job(active_out@, job_id as nat)) && completed_ok
            && !spec_output_lists_job(completed_out@, job_id as nat) ==> r is Err && r->Err_0@
            == "Job "@ + spec_dec_string(job_id as nat) + " not found"@,
{
    if active_ok && lpstat_lists_job(active_out, job_id) {
        return Ok(String::from_str("active"));
    }
    if !completed_ok {
        return Err(String::from_str("Failed to get completed job status"));
    }
    if lpstat_lists_job(completed_out, job_id) {
        return Ok(String::from_str("completed"));
    }
    let mut msg = String::from_str("Job ");
    let digits = i32_string(job_id);
    msg.append(digits.as_str());
    msg.append(" not found");
    proof {
        assert(msg@ =~= "Job "@ + spec_dec_string(job_id as nat) + " not found"@);
    }
    Err(msg)
}

/// What an active-jobs listing line yields: the job handle after the
/// last dash of the first token, the printer name before it, and the
/// submitting user in the second token — when the line has at least
/// three tokens, a dash, and a numeric handle.
pub open spec fn spec_active_job_of_line(line: Seq<char>) -> Option<(i32, Seq<char>, Seq<char>)> {
    let toks = spec_split_ws(line);
    if toks.len() >= 3 {
        let t = toks[0];
        let dash = spec_rfind(t, '-');
        if dash >= 0 {
            let idpart = t.skip(dash + 1);
            if idpart.len() > 0 && all_digits(idpart) && dec_val(idpart) <= i32::MAX {
                Some((dec_val(idpart) as i32, t.take(dash), toks[1]))
            } else {
                None
            }
        } else {
            None
        }
    } else {
        None
    }
}

/// The active jobs a listing reports, line by line.
pub open spec fn spec_active_jobs(lines: Seq<Seq<char>>) -> Seq<(i32, Seq<char>, Seq<char>)>
    decreases lines.len(),
{
    if lines.len() == 0 {
        Seq::<(i32, Seq<char>, Seq<char>)>::empty()
    } else {
        let rest = spec_active_jobs(lines.skip(1));
        match spec_active_job_of_line(lines[0]) {
            Some(j) => seq![j] + rest,
            None => rest,
        }
    }
}

/// The view of a parsed active-jobs vector.
pub open spec fn active_job_views(v: Seq<(i32, String, String)>) -> Seq<(i32, Seq<char>, Seq<char>)> {
    v.map_values(|t: (i32, String, String)| (t.0, t.1@, t.2@))
}

/// Parse the active-jobs listing, as [`spec_active_jobs`] describes.
pub fn parse_active_jobs(out: &str) -> (r: Vec<(i32, String, String)>)
    ensures
        active_job_views(r@) == spec_active_jobs(spec_lines(out@)),
{
    let lines = split_lines(out);
    let mut jobs: Vec<(i32, String, String)> = Vec::new();
    let mut i: usize = 0;
    let ghost all = spec_lines(out@);
    proof {
        assert(all.skip(0) =~= all);
        assert(active_job_views(jobs@) =~= Seq::<(i32, Seq<char>, Seq<char>)>::empty());
    }
    while i < lines.len()
        invariant
            0 <= i <= lines@.len(),
            all == spec_lines(out@),
            views(lines@) == all,
            spec_active_jobs(all) =~= active_job_views(jobs@) + spec_active_jobs(
                all.skip(i as int),
            ),
        decreases lines@.len() - i,
    {
        let line = &lines[i];
        proof {
            assert(all.skip(i as int)[0] == lines@[i as int]@);
            assert(all.skip(i as int).skip(1) =~= all.skip(i + 1));
        }
        let toks = split_ws(line.as_str());
        if toks.len() >= 3 {
            let t = &toks[0];
            let tlen = t.as_str().unicode_len();
            match rfind_char_spec(t.as_str(), '-') {
                Some(d) => {
                    proof {
                        crate::text::lemma_spec_rfind(t@, '-');
                    }
                    let idpart = substr_string(t.as_str(), d + 1, tlen);
                    proof {
                        assert(idpart@ =~= t@.skip(spec_rfind(t@, '-') + 1));
                    }
                    match parse_i32(idpart.as_str()) {
                        Some(id) => {
                            let printer_name = substr_string(t.as_str(), 0, d);
                            let user = toks[1].clone();
                            proof {
                                assert(printer_name@ =~= t@.take(spec_rfind(t@, '-')));
                                assert(spec_active_job_of_line(lines@[i as int]@) == Some(
                                    (id, printer_name@, user@),
                                ));
                                assert(active_job_views(jobs@.push((id, printer_name, user)))
                                    =~= active_job_views(jobs@) + seq![
                                    (id, printer_name@, user@),
                                ]);
                            }
                            jobs.push((id, printer_name, user));
                        },
                        None => {
                            proof {
                                assert(spec_active_job_of_line(lines@[i as int]@) is None);
                            }
                        },
                    }
                },
                None => {
                    proof {
                        assert(spec_active_job_of_line(lines@[i as int]@) is None);
                    }
                },
            }
        } else {
            proof {
                assert(spec_active_job_of_line(lines@[i as int]@) is None);
            }
        }
        i += 1;
    }
    proof {
        assert(all.skip(lines@.len() as int) =~= Seq::<Seq<char>>::empty());
        assert(active_job_views(jobs@) =~= spec_active_jobs(all));
    }
    jobs
}

/// The printer description a detail listing yields: a USB line names a
/// USB printer; failing that, a device-uri line is quoted whole.
pub open spec fn spec_description_from(lines: Seq<Seq<char>>, name: Seq<char>) -> Option<Seq<char>>
    decreases lines.len(),
{
    if lines.len() == 0 {
        None
    } else if contains_seq(lines[0], "usb:"@) {
        Some("USB Printer ["@ + name + "]"@)
    } else if contains_seq(lines[0], "device-uri"@) {
        Some(name + " [description: "@ + lines[0] + "]"@)
    } else {
        spec_description_from(lines.skip(1), name)
    }
}

/// Read the printer description out of a detail listing, as
/// [`spec_description_from`] describes.
pub fn printer_description_from_output(out: &str, printer_name: &str) -> (r: Option<String>)
    ensures
        match r {
            Some(d) => spec_description_from(spec_lines(out@), printer_name@) == Some(d@),
            None => spec_description_from(spec_lines(out@), printer_name@) is None,
        },
{
    let lines = split_lines(out);
    let mut i: usize = 0;
    let ghost all = spec_lines(out@);
    proof {
        assert(all.skip(0) =~= all);
    }
    while i < lines.len()
        invariant
            0 <= i <= lines@.len(),
            all == spec_lines(out@),
            views(lines@) == all,
            spec_description_from(all, printer_name@) == spec_description_from(
                all.skip(i as int),
                printer_name@,
            ),
        decreases lines@.len() - i,
    {
        let line = &lines[i];
        proof {
            assert(all.skip(i as int)[0] == lines@[i as int]@);
            assert(all.skip(i as int).skip(1) =~= all.skip(i + 1));
        }
        if contains_sub(line.as_str(), "usb:") {
            let mut d = String::from_str("USB Printer [");
            d.append(printer_name);
            d.append("]");
            proof {
                assert(d@ =~= "USB Printer ["@ + printer_name@ + "]"@);
            }
            return Some(d);
        } else if contains_sub(line.as_str(), "device-uri") {
            let mut d = String::from_str(printer_name);
            d.append(" [description: ");
            d.append(line.as_str());
            d.append("]");
            proof {
                assert(d@ =~= printer_name@ + " [description: "@ + lines@[i as int]@ + "]"@);
            }
            return Some(d);
        }
        i += 1;
    }
    proof {
        assert(all.skip(lines@.len() as int) =~= Seq::<Seq<char>>::empty());
    }
    None
}

/// The printer location a detail listing yields: the first line that
/// mentions one, quoted whole.
pub open spec fn spec_location_from(lines: Seq<Seq<char>>) -> Option<Seq<char>>
    decreases lines.len(),
{
    if lines.len() == 0 {
        None
    } else if contains_seq(lines[0], "Location:"@) {
        Some(lines[0])
    } else {
        spec_location_from(lines.skip(1))
    }
}

/// Read the printer location out of a detail listing, as
/// [`spec_location_from`] describes.
pub fn printer_location_from_output(out: &str) -> (r: Option<String>)
    ensures
        match r {
            Some(l) => spec_location_from(spec_lines(out@)) == Some(l@),
            None => spec_location_from(spec_lines(out@)) is None,
        },
{
    let lines = split_lines(out);
    let mut i: usize = 0;
    let ghost all = spec_lines(out@);
    proof {
        assert(all.skip(0) =~= all);
    }
    while i < lines.len()
        invariant
            0 <= i <= lines@.len(),
            all == spec_lines(out@),
            views(lines@) == all,
            spec_location_from(all) == spec_location_from(all.skip(i as int)),
        decreases lines@.len() - i,
    {
        let line = &lines[i];
        proof {
            assert(all.skip(i as int)[0] == lines@[i as int]@);
            assert(all.skip(i as int).skip(1) =~= all.skip(i + 1));
        }
        if contains_sub(line.as_str(), "Location:") {
            let llen = line.as_str().unicode_len();
            let copy = substr_string(line.as_str(), 0, llen);
            proof {
                assert(copy@ =~= lines@[i as int]@);
            }
            return Some(copy);
        }
        i += 1;
    }
    proof {
        assert(all.skip(lines@.len() as int) =~= Seq::<Seq<char>>::empty());
    }
    None
}

} // verus!
