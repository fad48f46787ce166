//! Output file names: supplying a missing extension, and renaming a file
//! with a numeric suffix until it no longer collides with names already
//! taken.

use vstd::prelude::*;
use vstd::string::*;
use crate::text::{
    all_digits, dec_val, find_char, find_char_from, lemma_spec_find, lemma_spec_rfind, parse_i32,
    rfind_char_spec, spec_dec_string, spec_find, spec_rfind, str_eq, substr_string, u64_string,
    views,
};

verus! {

/// Whether a bare file name carries an extension: a dot somewhere after
/// the first character.
pub open spec fn spec_has_extension(name: Seq<char>) -> bool {
    exists|i: int| 0 < i < name.len() && name[i] == '.'
}

/// `ext` with leading dots removed.
pub open spec fn spec_trim_dots(ext: Seq<char>) -> Seq<char>
    decreases ext.len(),
{
    if ext.len() > 0 && ext[0] == '.' {
        spec_trim_dots(ext.skip(1))
    } else {
        ext
    }
}

/// `name` with `.ext` appended when it has no extension of its own.
pub open spec fn spec_add_missing_extension(name: Seq<char>, ext: Seq<char>) -> Seq<char> {
    if spec_has_extension(name) {
        name
    } else {
        name + seq!['.'] + spec_trim_dots(ext)
    }
}

/// Append `.ext` to `filename` unless it already has an extension.
pub fn add_missing_extension(filename: &str, extension: &str) -> (r: String)
    ensures
        r@ == spec_add_missing_extension(filename@, extension@),
{
    let len = filename.unicode_len();
    let has_ext = if len <= 1 {
        false
    } else {
        match find_char_from(filename, '.', 1) {
            Some(_) => true,
            None => false,
        }
    };
    proof {
        assert(extension@.skip(0) =~= extension@);
    }
    proof {
        assert(has_ext == spec_has_extension(filename@));
    }
    if has_ext {
        substr_string(filename, 0, len)
    } else {
        let elen = extension.unicode_len();
        let mut k: usize = 0;
        while k < elen && extension.get_char(k) == '.'
            invariant
                elen == extension@.len(),
                0 <= k <= elen,
                spec_trim_dots(extension@) == spec_trim_dots(extension@.skip(k as int)),
            decreases elen - k,
        {
            proof {
                assert(extension@.skip(k as int).skip(1) =~= extension@.skip(k + 1));
            }
            k += 1;
        }
        let trimmed = substr_string(extension, k, elen);
        proof {
            let t = extension@.skip(k as int);
            assert(t.len() == 0 || t[0] != '.');
            assert(spec_trim_dots(t) == t);
            assert(trimmed@ =~= t);
        }
        let mut out = substr_string(filename, 0, len);
        out.append(".");
        out.append(trimmed.as_str());
        proof {
            reveal_strlit(".");
            assert(out@ =~= filename@ + seq!['.'] + spec_trim_dots(extension@));
        }
        out
    }
}

/// The next name tried when `name` is already taken: the numeric suffix
/// before the extension is replaced by its successor (inserted before the
/// extension on the first collision).
pub open spec fn spec_next_candidate(name: Seq<char>, first: bool) -> Seq<char> {
    let dot = spec_find(name, '.');
    if dot < 0 {
        name
    } else {
        let lastu = spec_rfind(name, '_');
        let segment = if lastu >= 0 {
            name.skip(lastu + 1)
        } else {
            name
        };
        let segdot = spec_find(segment, '.');
        let numpart = if segdot >= 0 {
            segment.take(segdot)
        } else {
            segment
        };
        let number: int = if numpart.len() > 0 && all_digits(numpart) && dec_val(numpart)
            <= i32::MAX {
            dec_val(numpart) as int
        } else {
            0
        };
        let firstu = spec_find(name, '_');
        let start = if first || firstu < 0 || firstu > dot {
            dot
        } else {
            firstu
        };
        name.take(start) + seq!['_'] + spec_dec_string((number + 1) as nat) + name.skip(dot)
    }
}

/// Renaming until the name is free: rewrite while the name is taken,
/// giving up once the fuel runs out.
pub open spec fn spec_validate(
    name: Seq<char>,
    taken: Seq<Seq<char>>,
    first: bool,
    fuel: nat,
) -> Seq<char>
    decreases fuel,
{
    if !taken.contains(name) || fuel == 0 {
        name
    } else {
        spec_validate(spec_next_candidate(name, first), taken, false, (fuel - 1) as nat)
    }
}

/// A rewritten candidate keeps a dot, so the rewrite can always continue.
proof fn lemma_candidate_has_dot(name: Seq<char>, first: bool)
    requires
        spec_find(name, '.') >= 0,
    ensures
        spec_find(spec_next_candidate(name, first), '.') >= 0,
{
    lemma_spec_find(name, '.');
    let dot = spec_find(name, '.');
    let r = spec_next_candidate(name, first);
    let firstu = spec_find(name, '_');
    let start = if first || firstu < 0 || firstu > dot {
        dot
    } else {
        firstu
    };
    lemma_spec_find(name, '_');
    let lastu = spec_rfind(name, '_');
    let segment = if lastu >= 0 {
        name.skip(lastu + 1)
    } else {
        name
    };
    let segdot = spec_find(segment, '.');
    let numpart = if segdot >= 0 {
        segment.take(segdot)
    } else {
        segment
    };
    let number: int = if numpart.len() > 0 && all_digits(numpart) && dec_val(numpart) <= i32::MAX {
        dec_val(numpart) as int
    } else {
        0
    };
    let idx = start + 1 + spec_dec_string((number + 1) as nat).len();
    assert(r == name.take(start) + seq!['_'] + spec_dec_string((number + 1) as nat) + name.skip(
        dot,
    ));
    assert(name.skip(dot)[0] == name[dot]);
    assert(r[idx] == name[dot]);
    lemma_spec_find(r, '.');
    if spec_find(r, '.') < 0 {
        assert(r[idx] != '.');
    }
}

/// Whether `name` occurs among the taken names.
fn contains_name(taken: &Vec<String>, name: &String) -> (r: bool)
    ensures
        r == views(taken@).contains(name@),
{
    let mut i: usize = 0;
    while i < taken.len()
        invariant
            0 <= i <= taken@.len(),
            forall|j: int| 0 <= j < i ==> views(taken@)[j] != name@,
        decreases taken@.len() - i,
    {
        if str_eq(taken[i].as_str(), name.as_str()) {
            proof {
                assert(views(taken@)[i as int] == name@);
            }
            return true;
        }
        proof {
            assert(views(taken@)[i as int] == taken@[i as int]@);
        }
        i += 1;
    }
    proof {
        if views(taken@).contains(name@) {
            let j = choose|j: int| 0 <= j < views(taken@).len() && views(taken@)[j] == name@;
            assert(views(taken@)[j] != name@);
        }
    }
    false
}

/// Compute the next candidate name, as [`spec_next_candidate`] describes.
fn next_candidate(name: &String, first: bool) -> (r: String)
    requires
        spec_find(name@, '.') >= 0,
    ensures
        r@ == spec_next_candidate(name@, first),
{
    let len = name.as_str().unicode_len();
    let dot = match find_char(name.as_str(), '.') {
        Some(d) => d,
        None => {
            proof {
                assert(false);
            }
            return String::new();
        },
    };
    let lastu_opt = rfind_char_spec(name.as_str(), '_');
    proof {
        lemma_spec_rfind(name@, '_');
    }
    let segment = match lastu_opt {
        Some(u) => substr_string(name.as_str(), u + 1, len),
        None => substr_string(name.as_str(), 0, len),
    };
    proof {
        let lastu = spec_rfind(name@, '_');
        if lastu >= 0 {
            assert(segment@ =~= name@.skip(lastu + 1));
        } else {
            assert(segment@ =~= name@);
        }
    }
    let seglen = segment.as_str().unicode_len();
    let numpart = match find_char(segment.as_str(), '.') {
        Some(d) => substr_string(segment.as_str(), 0, d),
        None => substr_string(segment.as_str(), 0, seglen),
    };
    proof {
        let segdot = spec_find(segment@, '.');
        if segdot >= 0 {
            assert(numpart@ =~= segment@.take(segdot));
        } else {
            assert(numpart@ =~= segment@);
        }
    }
    let number: i32 = match parse_i32(numpart.as_str()) {
        Some(v) => v,
        None => 0,
    };
    let count: u64 = (number as u64) + 1;
    let start = if first {
        dot
    } else {
        match find_char(name.as_str(), '_') {
            Some(u) => {
                if u > dot {
                    dot
                } else {
                    u
                }
            },
            None => dot,
        }
    };
    let mut out = substr_string(name.as_str(), 0, start);
    out.append("_");
    let digits = u64_string(count);
    out.append(digits.as_str());
    let suffix = substr_string(name.as_str(), dot, len);
    out.append(suffix.as_str());
    proof {
        reveal_strlit("_");
        assert(out@ =~= name@.take(start as int) + seq!['_'] + spec_dec_string(count as nat)
            + name@.skip(dot as int));
    }
    out
}

/// Rename `filename` with a numeric suffix until it no longer collides
/// with any of the `taken` names (or the rewrite budget runs out). The
/// rewrite needs an extension dot to anchor the suffix, so a colliding
/// name must contain a dot.
pub fn validate_filename(filename: &mut String, taken: &Vec<String>)
    requires
        views(taken@).contains(old(filename)@) ==> spec_find(old(filename)@, '.') >= 0,
        taken@.len() + 2 <= usize::MAX,
    ensures
        final(filename)@ == spec_validate(
            old(filename)@,
            views(taken@),
            true,
            (taken@.len() + 2) as nat,
        ),
{
    let mut cur: String = substr_string(filename.as_str(), 0, filename.as_str().unicode_len());
    proof {
        assert(cur@ =~= old(filename)@);
    }
    let ghost fuel0: nat = (taken@.len() + 2) as nat;
    let mut fuel: usize = taken.len() + 2;
    let mut first = true;
    while fuel > 0
        invariant
            views(taken@).contains(cur@) ==> spec_find(cur@, '.') >= 0,
            spec_validate(old(filename)@, views(taken@), true, fuel0) == spec_validate(
                cur@,
                views(taken@),
                first,
                fuel as nat,
            ),
        ensures
            cur@ == spec_validate(old(filename)@, views(taken@), true, fuel0),
        decreases fuel,
    {
        if !contains_name(taken, &cur) {
            break;
        }
        let next = next_candidate(&cur, first);
        proof {
            lemma_candidate_has_dot(cur@, first);
        }
        cur = next;
        first = false;
        fuel -= 1;
    }
    *filename = cur;
}

} // verus!
