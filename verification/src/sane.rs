//! The scan backend's text protocol: parsing scanner discovery lines,
//! resolving a scanner's listed name, and building the scan command's
//! argument list. The process calls themselves stay outside.

use vstd::prelude::*;
use vstd::string::*;
use crate::api::Scanner;
use crate::scan_job::ScanJob;
use crate::status::{scan_format_token, spec_scan_format_token, ColorMode};
use crate::text::{
    capitalize, contains_seq, contains_sub, find_char, find_char_from, find_sub_spec,
    spec_capitalize, spec_dec_string, spec_find, spec_find_sub, spec_lines, spec_split_ws,
    spec_trim, split_lines, split_ws, substr_string, trim, u64_string, views,
};

verus! {

/// The handle on the scan backend. Availability checks and the process
/// calls themselves live with the caller; the parsing of everything the
/// backend prints is here.
pub struct SaneService;

impl SaneService {
    pub fn new() -> SaneService {
        SaneService
    }

    /// Extract the vendor from a discovery line, as
    /// [`spec_vendor_from_line`] describes.
    pub fn extract_vendor_from_line(&self, line: &str) -> (r: Option<String>)
        ensures
            match r {
                Some(v) => spec_vendor_from_line(line@) == Some(v@),
                None => spec_vendor_from_line(line@) is None,
            },
    {
        extract_vendor_from_line(line)
    }

    /// Extract the model from a discovery line, as
    /// [`spec_model_from_line`] describes.
    pub fn extract_model_from_line(&self, line: &str) -> (r: Option<String>)
        ensures
            match r {
                Some(v) => spec_model_from_line(line@) == Some(v@),
                None => spec_model_from_line(line@) is None,
            },
    {
        extract_model_from_line(line)
    }
}

/// The text between the first opening parenthesis and the next, when
/// there is an opening parenthesis at all.
pub open spec fn spec_paren_segment(line: Seq<char>) -> Option<Seq<char>> {
    let f1 = spec_find(line, '(');
    if f1 < 0 {
        None
    } else {
        let rest = line.skip(f1 + 1);
        let f2 = spec_find(rest, '(');
        Some(
            if f2 >= 0 {
                rest.take(f2)
            } else {
                rest
            },
        )
    }
}

/// The text before the first occurrence of `c`, or all of `s`.
pub open spec fn spec_before_char(s: Seq<char>, c: char) -> Seq<char> {
    let i = spec_find(s, c);
    if i >= 0 {
        s.take(i)
    } else {
        s
    }
}

/// The text after the first occurrence of `c`, when `c` occurs.
pub open spec fn spec_after_once_char(s: Seq<char>, c: char) -> Option<Seq<char>> {
    let i = spec_find(s, c);
    if i < 0 {
        None
    } else {
        Some(s.skip(i + 1))
    }
}

/// The text between the first occurrence of `sub` and the next, when
/// `sub` occurs at all.
pub open spec fn spec_seg_after_sub(s: Seq<char>, sub: Seq<char>) -> Option<Seq<char>> {
    let i = spec_find_sub(s, sub);
    if i < 0 {
        None
    } else {
        let rest = s.skip(i + sub.len());
        let j = spec_find_sub(rest, sub);
        Some(
            if j >= 0 {
                rest.take(j)
            } else {
                rest
            },
        )
    }
}

/// The text between the first occurrence of `c` and the next, when `c`
/// occurs at all.
pub open spec fn spec_seg_after_char(s: Seq<char>, c: char) -> Option<Seq<char>> {
    let i = spec_find(s, c);
    if i < 0 {
        None
    } else {
        let rest = s.skip(i + 1);
        let j = spec_find(rest, c);
        Some(
            if j >= 0 {
                rest.take(j)
            } else {
                rest
            },
        )
    }
}

/// The vendor named on a discovery line: the bracketed name inside the
/// parenthesised vendor clause, capitalized.
pub open spec fn spec_vendor_from_line(line: Seq<char>) -> Option<Seq<char>> {
    if !contains_seq(line, "vendor="@) {
        None
    } else {
        match spec_paren_segment(line) {
            Some(seg) => {
                let body = spec_before_char(seg, ')');
                match spec_after_once_char(body, '[') {
                    Some(a) => {
                        let i = spec_find(a, ']');
                        if i < 0 {
                            None
                        } else {
                            Some(spec_capitalize(a.take(i)))
                        }
                    },
                    None => None,
                }
            },
            None => None,
        }
    }
}

/// The model named on a discovery line: the bracketed name in the
/// product clause, after the comma inside the parentheses.
pub open spec fn spec_model_from_line(line: Seq<char>) -> Option<Seq<char>> {
    if !contains_seq(line, "product="@) {
        None
    } else {
        match spec_paren_segment(line) {
            Some(seg) => {
                let body = spec_before_char(seg, ')');
                match spec_seg_after_sub(body, ", "@) {
                    Some(seg2) => match spec_seg_after_char(seg2, '[') {
                        Some(seg3) => Some(spec_before_char(seg3, ']')),
                        None => None,
                    },
                    None => None,
                }
            },
            None => None,
        }
    }
}

/// The text between the first opening parenthesis and the next.
fn paren_segment(line: &str) -> (r: Option<String>)
    ensures
        match r {
            Some(s) => spec_paren_segment(line@) == Some(s@),
            None => spec_paren_segment(line@) is None,
        },
{
    let len = line.unicode_len();
    let f1 = match find_char(line, '(') {
        Some(i) => i,
        None => {
            return None;
        },
    };
    let rest = substr_string(line, f1 + 1, len);
    proof {
        assert(rest@ =~= line@.skip(f1 + 1));
    }
    let rlen = rest.as_str().unicode_len();
    match find_char(rest.as_str(), '(') {
        Some(f2) => {
            let seg = substr_string(rest.as_str(), 0, f2);
            proof {
                assert(seg@ =~= rest@.take(spec_find(rest@, '(')));
            }
            Some(seg)
        },
        None => Some(substr_string(rest.as_str(), 0, rlen)),
    }
}

/// Extract the vendor from a discovery line, as
/// [`spec_vendor_from_line`] describes.
pub fn extract_vendor_from_line(line: &str) -> (r: Option<String>)
    ensures
        match r {
            Some(v) => spec_vendor_from_line(line@) == Some(v@),
            None => spec_vendor_from_line(line@) is None,
        },
{
    if !contains_sub(line, "vendor=") {
        return None;
    }
    let seg = match paren_segment(line) {
        Some(s) => s,
        None => {
            return None;
        },
    };
    let slen = seg.as_str().unicode_len();
    let body = match find_char(seg.as_str(), ')') {
        Some(i) => substr_string(seg.as_str(), 0, i),
        None => substr_string(seg.as_str(), 0, slen),
    };
    proof {
        assert(body@ =~= spec_before_char(seg@, ')'));
    }
    let blen = body.as_str().unicode_len();
    let a = match find_char(body.as_str(), '[') {
        Some(i) => substr_string(body.as_str(), i + 1, blen),
        None => {
            return None;
        },
    };
    proof {
        assert(a@ =~= body@.skip(spec_find(body@, '[') + 1));
    }
    match find_char(a.as_str(), ']') {
        Some(i) => {
            let name = substr_string(a.as_str(), 0, i);
            proof {
                assert(name@ =~= a@.take(spec_find(a@, ']')));
            }
            Some(capitalize(name.as_str()))
        },
        None => None,
    }
}

/// Extract the model from a discovery line, as
/// [`spec_model_from_line`] describes.
pub fn extract_model_from_line(line: &str) -> (r: Option<String>)
    ensures
        match r {
            Some(v) => spec_model_from_line(line@) == Some(v@),
            None => spec_model_from_line(line@) is None,
        },
{
    if !contains_sub(line, "product=") {
        return None;
    }
    let seg = match paren_segment(line) {
        Some(s) => s,
        None => {
            return None;
        },
    };
    let slen = seg.as_str().unicode_len();
    let body = match find_char(seg.as_str(), ')') {
        Some(i) => substr_string(seg.as_str(), 0, i),
        None => substr_string(seg.as_str(), 0, slen),
    };
    proof {
        assert(body@ =~= spec_before_char(seg@, ')'));
    }
    let blen = body.as_str().unicode_len();
    let i1 = match find_sub_spec(body.as_str(), ", ") {
        Some(i) => i,
        None => {
            return None;
        },
    };
    proof {
        crate::text::lemma_spec_find_sub(body@, ", "@);
        reveal_strlit(", ");
    }
    let rest = substr_string(body.as_str(), i1 + 2, blen);
    proof {
        assert(rest@ =~= body@.skip(spec_find_sub(body@, ", "@) + 2));
    }
    let rlen = rest.as_str().unicode_len();
    let seg2 = match find_sub_spec(rest.as_str(), ", ") {
        Some(j) => {
            proof {
                crate::text::lemma_spec_find_sub(rest@, ", "@);
            }
            substr_string(rest.as_str(), 0, j)
        },
        None => substr_string(rest.as_str(), 0, rlen),
    };
    proof {
        let j = spec_find_sub(rest@, ", "@);
        if j >= 0 {
            assert(seg2@ =~= rest@.take(j));
        } else {
            assert(seg2@ =~= rest@);
        }
        assert(spec_seg_after_sub(body@, ", "@) == Some(seg2@));
    }
    let s2len = seg2.as_str().unicode_len();
    let i2 = match find_char(seg2.as_str(), '[') {
        Some(i) => i,
        None => {
            return None;
        },
    };
    let rest2 = substr_string(seg2.as_str(), i2 + 1, s2len);
    proof {
        assert(rest2@ =~= seg2@.skip(spec_find(seg2@, '[') + 1));
    }
    let r2len = rest2.as_str().unicode_len();
    let seg3 = match find_char(rest2.as_str(), '[') {
        Some(j) => substr_string(rest2.as_str(), 0, j),
        None => substr_string(rest2.as_str(), 0, r2len),
    };
    proof {
        let j = spec_find(rest2@, '[');
        if j >= 0 {
            assert(seg3@ =~= rest2@.take(j));
        } else {
            assert(seg3@ =~= rest2@);
        }
        assert(spec_seg_after_char(seg2@, '[') == Some(seg3@));
    }
    let s3len = seg3.as_str().unicode_len();
    let name = match find_char(seg3.as_str(), ']') {
        Some(j) => substr_string(seg3.as_str(), 0, j),
        None => substr_string(seg3.as_str(), 0, s3len),
    };
    proof {
        assert(name@ =~= spec_before_char(seg3@, ']'));
    }
    Some(name)
}

/// What a discovery line yields: the device reference after ` at `,
/// trimmed, with whatever vendor and model the line names. Lines that
/// do not announce a found scanner yield nothing.
pub open spec fn spec_scan_line(line: Seq<char>) -> Option<(Seq<char>, Option<Seq<char>>, Option<
    Seq<char>,
>)> {
    if contains_seq(line, "found"@) && contains_seq(line, "scanner"@) && spec_split_ws(line).len()
        >= 2 && spec_find_sub(line, " at "@) >= 0 {
        Some(
            (
                spec_trim(line.skip(spec_find_sub(line, " at "@) + 4)),
                spec_vendor_from_line(line),
                spec_model_from_line(line),
            ),
        )
    } else {
        None
    }
}

/// Parse one discovery line, as [`spec_scan_line`] describes.
pub fn parse_scanner_line(line: &str) -> (r: Option<(String, Option<String>, Option<String>)>)
    ensures
        match r {
            Some(t) => spec_scan_line(line@) == Some(
                (
                    t.0@,
                    match t.1 {
                        Some(v) => Some(v@),
                        None => None,
                    },
                    match t.2 {
                        Some(m) => Some(m@),
                        None => None,
                    },
                ),
            ),
            None => spec_scan_line(line@) is None,
        },
{
    if !(contains_sub(line, "found") && contains_sub(line, "scanner")) {
        return None;
    }
    let toks = split_ws(line);
    if toks.len() < 2 {
        return None;
    }
    let at = match find_sub_spec(line, " at ") {
        Some(i) => i,
        None => {
            return None;
        },
    };
    proof {
        crate::text::lemma_spec_find_sub(line@, " at "@);
        reveal_strlit(" at ");
    }
    let len = line.unicode_len();
    let device_part = substr_string(line, at + 4, len);
    proof {
        assert(device_part@ =~= line@.skip(spec_find_sub(line@, " at "@) + 4));
    }
    let partial = trim(device_part.as_str());
    let vendor = extract_vendor_from_line(line);
    let model = extract_model_from_line(line);
    Some((partial, vendor, model))
}

/// Assemble a scanner record: unnamed vendors and models fall back to
/// fixed words, and every device found this way is a flatbed scanner.
pub fn scanner_of(name: String, vendor: Option<String>, model: Option<String>) -> (r: Scanner)
    ensures
        r.name == name,
        r.vendor@ == match vendor {
            Some(v) => v@,
            None => "Unknown"@,
        },
        r.model@ == match model {
            Some(m) => m@,
            None => "Scanner"@,
        },
        r.device_type@ == "flatbed scanner"@,
{
    Scanner {
        name,
        vendor: match vendor {
            Some(v) => v,
            None => String::from_str("Unknown"),
        },
        model: match model {
            Some(m) => m,
            None => String::from_str("Scanner"),
        },
        device_type: String::from_str("flatbed scanner"),
    }
}

/// The index of the first line containing `pattern`, or -1.
pub open spec fn spec_first_matching(lines: Seq<Seq<char>>, pattern: Seq<char>) -> int
    decreases lines.len(),
{
    if lines.len() == 0 {
        -1
    } else if contains_seq(lines[0], pattern) {
        0
    } else {
        let r = spec_first_matching(lines.skip(1), pattern);
        if r < 0 {
            -1
        } else {
            1 + r
        }
    }
}

/// [`spec_first_matching`] names the first matching line, when there is
/// one.
proof fn lemma_first_matching(lines: Seq<Seq<char>>, pattern: Seq<char>)
    ensures
        spec_first_matching(lines, pattern) >= 0 ==> 0 <= spec_first_matching(lines, pattern)
            < lines.len() && contains_seq(lines[spec_first_matching(lines, pattern)], pattern)
            && forall|j: int|
            0 <= j < spec_first_matching(lines, pattern) ==> !contains_seq(lines[j], pattern),
        spec_first_matching(lines, pattern) < 0 ==> forall|j: int|
            0 <= j < lines.len() ==> !contains_seq(lines[j], pattern),
    decreases lines.len(),
{
    if lines.len() > 0 && !contains_seq(lines[0], pattern) {
        lemma_first_matching(lines.skip(1), pattern);
        let t = lines.skip(1);
        assert forall|j: int| 1 <= j < lines.len() implies lines[j] == t[j - 1] by {}
        if spec_first_matching(t, pattern) >= 0 {
            assert(lines[1 + spec_first_matching(t, pattern)] == t[spec_first_matching(
                t,
                pattern,
            )]);
        }
    }
}

/// The scanner name quoted on the first listing line that mentions the
/// device reference: what stands between the backquote and the quote.
pub open spec fn spec_scanner_name(out: Seq<char>, pattern: Seq<char>) -> Option<Seq<char>> {
    let lines = spec_lines(out);
    let f = spec_first_matching(lines, pattern);
    if f < 0 {
        None
    } else {
        let line = lines[f];
        let b = spec_find(line, '`');
        if b < 0 {
            None
        } else {
            let a = line.skip(b + 1);
            let q = spec_find(a, '\'');
            if q < 0 {
                None
            } else {
                Some(a.take(q))
            }
        }
    }
}

/// Resolve the scanner's listed name, as [`spec_scanner_name`]
/// describes: the quoted name on the first line that mentions the
/// device reference. A matching line must quote a name; a listing
/// without a matching line fails the lookup.
pub fn scanner_name_from_listing(out: &str, pattern: &str) -> (r: Result<String, String>)
    requires
        spec_scanner_name(out@, pattern@) is Some || spec_first_matching(
            spec_lines(out@),
            pattern@,
        ) < 0,
    ensures
        match r {
            Ok(name) => spec_scanner_name(out@, pattern@) == Some(name@),
            Err(m) => spec_scanner_name(out@, pattern@) is None && m@
                == "Couldnt find matching name"@,
        },
{
    let lines = split_lines(out);
    let ghost all = spec_lines(out@);
    let mut i: usize = 0;
    proof {
        lemma_first_matching(all, pattern@);
    }
    while i < lines.len()
        invariant
            0 <= i <= lines@.len(),
            all == spec_lines(out@),
            views(lines@) == all,
            forall|j: int| 0 <= j < i ==> !contains_seq(#[trigger] all[j], pattern@),
            spec_scanner_name(out@, pattern@) is Some || spec_first_matching(all, pattern@) < 0,
        decreases lines@.len() - i,
    {
        let line = &lines[i];
        if contains_sub(line.as_str(), pattern) {
            proof {
                lemma_first_matching(all, pattern@);
                let f = spec_first_matching(all, pattern@);
                assert(contains_seq(all[i as int], pattern@));
                if f != i {
                    if f < 0 {
                        assert(!contains_seq(all[i as int], pattern@));
                    } else if f < i {
                        assert(!contains_seq(all[f], pattern@));
                    } else {
                        assert(!contains_seq(all[i as int], pattern@));
                    }
                    assert(false);
                }
            }
            let llen = line.as_str().unicode_len();
            let b = match find_char(line.as_str(), '`') {
                Some(x) => x,
                None => {
                    proof {
                        assert(false);
                    }
                    return Err(String::new());
                },
            };
            let a = substr_string(line.as_str(), b + 1, llen);
            proof {
                assert(a@ =~= all[i as int].skip(spec_find(all[i as int], '`') + 1));
            }
            let alen = a.as_str().unicode_len();
            let q = match find_char(a.as_str(), '\'') {
                Some(x) => x,
                None => {
                    proof {
                        assert(false);
                    }
                    return Err(String::new());
                },
            };
            let name = substr_string(a.as_str(), 0, q);
            proof {
                assert(name@ =~= a@.take(spec_find(a@, '\'')));
            }
            return Ok(name);
        }
        i += 1;
    }
    proof {
        lemma_first_matching(all, pattern@);
        let f = spec_first_matching(all, pattern@);
        if f >= 0 {
            assert(!contains_seq(all[f], pattern@));
            assert(false);
        }
    }
    Err(String::from_str("Couldnt find matching name"))
}

/// The mode word the scan command expects for a color mode.
pub open spec fn spec_scan_mode_arg(m: ColorMode) -> Seq<char> {
    match m {
        ColorMode::Color => "Color"@,
        ColorMode::Grayscale => "Gray"@,
        ColorMode::Monochrome => "Lineart"@,
    }
}

/// The mode word the scan command expects for a color mode.
pub fn scan_mode_arg(m: ColorMode) -> (r: &'static str)
    ensures
        r@ == spec_scan_mode_arg(m),
{
    match m {
        ColorMode::Color => "Color",
        ColorMode::Grayscale => "Gray",
        ColorMode::Monochrome => "Lineart",
    }
}

/// Where a scan job's output goes; a job without an output name cannot
/// be scanned.
pub fn scan_output_path(job: &ScanJob) -> (r: Result<String, String>)
    ensures
        match job.output_filename {
            Some(f) => r is Ok && r->Ok_0@ == "scans/"@ + f@,
            None => r is Err && r->Err_0@ == "No output filename specified"@,
        },
{
    match job.get_file_path() {
        Some(p) => Ok(p),
        None => Err(String::from_str("No output filename specified")),
    }
}

/// The argument list a scan hands to the scan command: the device, the
/// resolution, the format, the color mode, and the output file.
pub open spec fn spec_scanimage_args(j: ScanJob, output_path: Seq<char>) -> Seq<Seq<char>> {
    seq![
        "-d"@,
        j.scanner@,
        "--resolution"@,
        spec_dec_string(j.resolution as nat),
        "--format"@,
        spec_scan_format_token(j.format),
        "--mode"@,
        spec_scan_mode_arg(j.color_mode),
        "-o"@,
        output_path,
    ]
}

/// Build the scan command's argument list, as [`spec_scanimage_args`]
/// describes.
pub fn build_scanimage_args(job: &ScanJob, output_path: &str) -> (r: Vec<String>)
    ensures
        views(r@) == spec_scanimage_args(*job, output_path@),
{
    let mut args: Vec<String> = Vec::new();
    args.push(String::from_str("-d"));
    args.push(job.scanner.clone());
    args.push(String::from_str("--resolution"));
    args.push(u64_string(job.resolution as u64));
    args.push(String::from_str("--format"));
    args.push(String::from_str(scan_format_token(job.format)));
    args.push(String::from_str("--mode"));
    args.push(String::from_str(scan_mode_arg(job.color_mode)));
    args.push(String::from_str("-o"));
    args.push(String::from_str(output_path));
    proof {
        assert(views(args@) =~= spec_scanimage_args(*job, output_path@));
    }
    args
}

} // verus!
