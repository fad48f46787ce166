//! Character-level text utilities: equality, search, splitting, joining,
//! decimal parsing and formatting, and ASCII case conversion. Everything the
//! parsers for device command output and persisted records are built on.

use vstd::prelude::*;
use vstd::string::*;

verus! {

/// True when `sub` occurs in `s` starting at index `i`.
pub open spec fn matches_at(s: Seq<char>, sub: Seq<char>, i: int) -> bool {
    0 <= i && i + sub.len() <= s.len() && s.subrange(i, i + sub.len() as int) == sub
}

/// True when `sub` occurs somewhere in `s`.
pub open spec fn contains_seq(s: Seq<char>, sub: Seq<char>) -> bool {
    exists|i: int| matches_at(s, sub, i)
}

/// Character-for-character equality of two string slices.
pub fn str_eq(a: &str, b: &str) -> (r: bool)
    ensures
        r == (a@ == b@),
{
    let alen = a.unicode_len();
    let blen = b.unicode_len();
    if alen != blen {
        return false;
    }
    let mut i: usize = 0;
    while i < alen
        invariant
            alen == a@.len(),
            blen == b@.len(),
            alen == blen,
            0 <= i <= alen,
            forall|j: int| 0 <= j < i ==> a@[j] == b@[j],
        decreases alen - i,
    {
        if a.get_char(i) != b.get_char(i) {
            return false;
        }
        i += 1;
    }
    proof {
        assert(a@ =~= b@);
    }
    true
}

/// Index of the first occurrence of `c` in `s` at or after `from`.
pub fn find_char_from(s: &str, c: char, from: usize) -> (r: Option<usize>)
    requires
        from <= s@.len(),
    ensures
        match r {
            Some(i) => from <= i < s@.len() && s@[i as int] == c && forall|j: int|
                from <= j < i ==> s@[j] != c,
            None => forall|j: int| from <= j < s@.len() ==> s@[j] != c,
        },
{
    let len = s.unicode_len();
    let mut i: usize = from;
    while i < len
        invariant
            len == s@.len(),
            from <= i <= len,
            forall|j: int| from <= j < i ==> s@[j] != c,
        decreases len - i,
    {
        if s.get_char(i) == c {
            return Some(i);
        }
        i += 1;
    }
    None
}

/// Index of the first occurrence of `c` in `s`, or -1 if there is none.
pub open spec fn spec_find(s: Seq<char>, c: char) -> int
    decreases s.len(),
{
    if s.len() == 0 {
        -1
    } else if s[0] == c {
        0
    } else {
        let r = spec_find(s.skip(1), c);
        if r < 0 {
            -1
        } else {
            1 + r
        }
    }
}

/// [`spec_find`] names the first occurrence of `c`, when there is one.
pub proof fn lemma_spec_find(s: Seq<char>, c: char)
    ensures
        spec_find(s, c) >= 0 ==> 0 <= spec_find(s, c) < s.len() && s[spec_find(s, c)] == c
            && forall|j: int| 0 <= j < spec_find(s, c) ==> s[j] != c,
        spec_find(s, c) < 0 ==> forall|j: int| 0 <= j < s.len() ==> s[j] != c,
    decreases s.len(),
{
    if s.len() > 0 && s[0] != c {
        lemma_spec_find(s.skip(1), c);
        let t = s.skip(1);
        let r1 = spec_find(t, c);
        assert forall|j: int| 1 <= j < s.len() implies s[j] == t[j - 1] by {}
        if r1 >= 0 {
            assert(s[1 + r1] == t[r1]);
        }
    }
}

/// Index of the last occurrence of `c` in `s`, or -1 if there is none.
pub open spec fn spec_rfind(s: Seq<char>, c: char) -> int
    decreases s.len(),
{
    if s.len() == 0 {
        -1
    } else if s.last() == c {
        s.len() - 1
    } else {
        spec_rfind(s.drop_last(), c)
    }
}

/// [`spec_rfind`] names the last occurrence of `c`, when there is one.
pub proof fn lemma_spec_rfind(s: Seq<char>, c: char)
    ensures
        spec_rfind(s, c) >= 0 ==> 0 <= spec_rfind(s, c) < s.len() && s[spec_rfind(s, c)] == c
            && forall|j: int| spec_rfind(s, c) < j < s.len() ==> s[j] != c,
        spec_rfind(s, c) < 0 ==> forall|j: int| 0 <= j < s.len() ==> s[j] != c,
        spec_rfind(s, c) >= -1,
    decreases s.len(),
{
    if s.len() > 0 && s.last() != c {
        lemma_spec_rfind(s.drop_last(), c);
        let t = s.drop_last();
        assert forall|j: int| 0 <= j < s.len() - 1 implies s[j] == t[j] by {}
    }
}

/// Index of the first occurrence of `c` in `s`.
pub fn find_char(s: &str, c: char) -> (r: Option<usize>)
    ensures
        match r {
            Some(i) => 0 <= i < s@.len() && s@[i as int] == c && forall|j: int|
                0 <= j < i ==> s@[j] != c,
            None => forall|j: int| 0 <= j < s@.len() ==> s@[j] != c,
        },
        match r {
            Some(i) => spec_find(s@, c) == i,
            None => spec_find(s@, c) == -1,
        },
{
    let r = find_char_from(s, c, 0);
    proof {
        lemma_spec_find(s@, c);
    }
    r
}

/// Index of the last occurrence of `c` in `s`, related to [`spec_rfind`].
pub fn rfind_char_spec(s: &str, c: char) -> (r: Option<usize>)
    ensures
        match r {
            Some(i) => spec_rfind(s@, c) == i,
            None => spec_rfind(s@, c) == -1,
        },
{
    let r = rfind_char(s, c);
    proof {
        lemma_spec_rfind(s@, c);
        let k = spec_rfind(s@, c);
        match r {
            Some(i) => {
                if k < i {
                    assert(s@[i as int] == c);
                    assert(false);
                } else if k > i {
                    assert(s@[k] == c);
                    assert(false);
                }
            },
            None => {
                if k >= 0 {
                    assert(s@[k] == c);
                    assert(false);
                }
            },
        }
    }
    r
}

/// Index of the last occurrence of `c` in `s`.
pub fn rfind_char(s: &str, c: char) -> (r: Option<usize>)
    ensures
        match r {
            Some(i) => 0 <= i < s@.len() && s@[i as int] == c && forall|j: int|
                i < j < s@.len() ==> s@[j] != c,
            None => forall|j: int| 0 <= j < s@.len() ==> s@[j] != c,
        },
{
    let len = s.unicode_len();
    let mut i: usize = len;
    while i > 0
        invariant
            len == s@.len(),
            0 <= i <= len,
            forall|j: int| i <= j < len ==> s@[j] != c,
        decreases i,
    {
        i -= 1;
        if s.get_char(i) == c {
            return Some(i);
        }
    }
    None
}

/// Whether `s` begins with `prefix`.
pub fn starts_with(s: &str, prefix: &str) -> (r: bool)
    ensures
        r == (prefix@.len() <= s@.len() && s@.subrange(0, prefix@.len() as int) == prefix@),
{
    let plen = prefix.unicode_len();
    let slen = s.unicode_len();
    if plen > slen {
        return false;
    }
    let mut i: usize = 0;
    while i < plen
        invariant
            plen == prefix@.len(),
            slen == s@.len(),
            plen <= slen,
            0 <= i <= plen,
            forall|j: int| 0 <= j < i ==> s@[j] == prefix@[j],
        decreases plen - i,
    {
        if s.get_char(i) != prefix.get_char(i) {
            proof {
                assert(s@.subrange(0, plen as int)[i as int] != prefix@[i as int]);
            }
            return false;
        }
        i += 1;
    }
    proof {
        assert(s@.subrange(0, plen as int) =~= prefix@);
    }
    true
}

/// Whether `sub` matches `s` at position `at`.
fn matches_here(s: &str, sub: &str, at: usize) -> (r: bool)
    requires
        at <= s@.len(),
    ensures
        r == matches_at(s@, sub@, at as int),
{
    let slen = s.unicode_len();
    let blen = sub.unicode_len();
    if blen > slen || at > slen - blen {
        return false;
    }
    let mut i: usize = 0;
    while i < blen
        invariant
            slen == s@.len(),
            blen == sub@.len(),
            at + blen <= slen,
            0 <= i <= blen,
            forall|j: int| 0 <= j < i ==> s@[at + j] == sub@[j],
        decreases blen - i,
    {
        if s.get_char(at + i) != sub.get_char(i) {
            proof {
                assert(s@.subrange(at as int, at + blen) [i as int] != sub@[i as int]);
            }
            return false;
        }
        i += 1;
    }
    proof {
        assert(s@.subrange(at as int, at + blen) =~= sub@);
    }
    true
}

/// Index of the first occurrence of the substring `sub` in `s`.
pub fn find_sub(s: &str, sub: &str) -> (r: Option<usize>)
    ensures
        match r {
            Some(i) => matches_at(s@, sub@, i as int) && forall|j: int|
                0 <= j < i ==> !matches_at(s@, sub@, j),
            None => !contains_seq(s@, sub@),
        },
{
    let slen = s.unicode_len();
    let blen = sub.unicode_len();
    if blen > slen {
        return None;
    }
    if blen == 0 {
        proof {
            assert(matches_at(s@, sub@, 0)) by {
                assert(s@.subrange(0, 0) =~= sub@);
            }
        }
        return Some(0);
    }
    let mut i: usize = 0;
    while i <= slen - blen
        invariant
            slen == s@.len(),
            blen == sub@.len(),
            0 < blen <= slen,
            0 <= i <= slen - blen + 1,
            forall|j: int| 0 <= j < i ==> !matches_at(s@, sub@, j),
        decreases slen - i,
    {
        if matches_here(s, sub, i) {
            return Some(i);
        }
        i += 1;
    }
    proof {
        assert forall|j: int| 0 <= j < s@.len() implies !matches_at(s@, sub@, j) by {
            if j + sub@.len() <= s@.len() {
                assert(j < i);
            }
        }
    }
    None
}

/// Index of the first occurrence of `sub` in `s`, or -1 if there is
/// none.
pub open spec fn spec_find_sub(s: Seq<char>, sub: Seq<char>) -> int
    decreases s.len(),
{
    if s.len() < sub.len() {
        -1
    } else if s.take(sub.len() as int) == sub {
        0
    } else if s.len() == 0 {
        -1
    } else {
        let r = spec_find_sub(s.skip(1), sub);
        if r < 0 {
            -1
        } else {
            1 + r
        }
    }
}

/// [`spec_find_sub`] names the first occurrence of `sub`, when there is
/// one.
pub proof fn lemma_spec_find_sub(s: Seq<char>, sub: Seq<char>)
    ensures
        spec_find_sub(s, sub) >= 0 ==> 0 <= spec_find_sub(s, sub) && spec_find_sub(s, sub)
            + sub.len() <= s.len() && matches_at(s, sub, spec_find_sub(s, sub)) && forall|j: int|
            0 <= j < spec_find_sub(s, sub) ==> !matches_at(s, sub, j),
        spec_find_sub(s, sub) < 0 ==> !contains_seq(s, sub),
    decreases s.len(),
{
    if s.len() < sub.len() {
        assert forall|j: int| !matches_at(s, sub, j) by {}
        if contains_seq(s, sub) {
            let j = choose|j: int| matches_at(s, sub, j);
            assert(!matches_at(s, sub, j));
        }
    } else if s.take(sub.len() as int) == sub {
        assert(matches_at(s, sub, 0)) by {
            assert(s.subrange(0, sub.len() as int) =~= s.take(sub.len() as int));
        }
    } else {
        assert(s.len() >= sub.len() && s.len() > 0 || s.len() == 0);
        if s.len() == 0 {
            if contains_seq(s, sub) {
                let j = choose|j: int| matches_at(s, sub, j);
            }
        } else {
            lemma_spec_find_sub(s.skip(1), sub);
            let t = s.skip(1);
            let r = spec_find_sub(t, sub);
            assert forall|j: int| 1 <= j && j + sub.len() <= s.len() implies (matches_at(
                s,
                sub,
                j,
            ) <==> matches_at(t, sub, j - 1)) by {
                assert(s.subrange(j, j + sub.len() as int) =~= t.subrange(
                    j - 1,
                    j - 1 + sub.len() as int,
                ));
            }
            assert(!matches_at(s, sub, 0)) by {
                assert(s.subrange(0, sub.len() as int) =~= s.take(sub.len() as int));
            }
            if r >= 0 {
                assert(matches_at(s, sub, 1 + r));
            } else {
                if contains_seq(s, sub) {
                    let j = choose|j: int| matches_at(s, sub, j);
                    assert(matches_at(t, sub, j - 1));
                    assert(contains_seq(t, sub));
                }
            }
        }
    }
}

/// Index of the first occurrence of `sub` in `s`, related to
/// [`spec_find_sub`].
pub fn find_sub_spec(s: &str, sub: &str) -> (r: Option<usize>)
    ensures
        match r {
            Some(i) => spec_find_sub(s@, sub@) == i,
            None => spec_find_sub(s@, sub@) == -1,
        },
{
    let r = find_sub(s, sub);
    proof {
        lemma_spec_find_sub(s@, sub@);
        let k = spec_find_sub(s@, sub@);
        match r {
            Some(i) => {
                if k < 0 {
                    assert(contains_seq(s@, sub@));
                    assert(false);
                } else if k < i {
                    assert(matches_at(s@, sub@, k));
                    assert(false);
                } else if k > i {
                    assert(matches_at(s@, sub@, i as int));
                    assert(false);
                }
            },
            None => {
                if k >= 0 {
                    assert(matches_at(s@, sub@, k));
                    assert(contains_seq(s@, sub@));
                    assert(false);
                }
                assert(k >= -1) by {
                    lemma_find_sub_lower_bound(s@, sub@);
                }
            },
        }
    }
    r
}

/// [`spec_find_sub`] never goes below -1.
proof fn lemma_find_sub_lower_bound(s: Seq<char>, sub: Seq<char>)
    ensures
        spec_find_sub(s, sub) >= -1,
    decreases s.len(),
{
    if !(s.len() < sub.len()) && !(s.take(sub.len() as int) == sub) && s.len() > 0 {
        lemma_find_sub_lower_bound(s.skip(1), sub);
    }
}

/// Whether `s` contains the substring `sub`.
pub fn contains_sub(s: &str, sub: &str) -> (r: bool)
    ensures
        r == contains_seq(s@, sub@),
{
    match find_sub(s, sub) {
        Some(_) => true,
        None => false,
    }
}

/// A copy of `s[a..b]` as an owned string.
pub fn substr_string(s: &str, a: usize, b: usize) -> (r: String)
    requires
        a <= b <= s@.len(),
    ensures
        r@ == s@.subrange(a as int, b as int),
{
    String::from_str(s.substring_char(a, b))
}

/// The views of a sequence of owned strings.
pub open spec fn views(v: Seq<String>) -> Seq<Seq<char>> {
    v.map_values(|x: String| x@)
}

/// What splitting on the character `sep` yields: the (possibly empty)
/// stretches of `s` between occurrences of `sep`, in order.
pub open spec fn spec_split(s: Seq<char>, sep: char) -> Seq<Seq<char>>
    decreases s.len(),
{
    if s.len() == 0 {
        seq![Seq::<char>::empty()]
    } else if s[0] == sep {
        seq![Seq::<char>::empty()] + spec_split(s.skip(1), sep)
    } else {
        let rest = spec_split(s.skip(1), sep);
        seq![seq![s[0]] + rest[0]] + rest.skip(1)
    }
}

pub proof fn lemma_split_len(s: Seq<char>, sep: char)
    ensures
        spec_split(s, sep).len() >= 1,
    decreases s.len(),
{
    if s.len() > 0 && s[0] != sep {
        lemma_split_len(s.skip(1), sep);
    }
}

/// Splitting a separator-free string yields just that string.
pub proof fn lemma_split_whole(s: Seq<char>, sep: char)
    requires
        forall|j: int| 0 <= j < s.len() ==> s[j] != sep,
    ensures
        spec_split(s, sep) =~= seq![s],
    decreases s.len(),
{
    if s.len() == 0 {
        assert(spec_split(s, sep) == seq![Seq::<char>::empty()]);
        assert(s =~= Seq::<char>::empty());
    } else {
        lemma_split_whole(s.skip(1), sep);
        assert(seq![s[0]] + s.skip(1) =~= s);
    }
}

/// Peeling a separator-free prefix plus one separator off the front of `s`
/// peels one element off its split.
pub proof fn lemma_split_step(s: Seq<char>, sep: char, k: int)
    requires
        0 <= k < s.len(),
        s[k] == sep,
        forall|j: int| 0 <= j < k ==> s[j] != sep,
    ensures
        spec_split(s, sep) =~= seq![s.take(k)] + spec_split(s.skip(k + 1), sep),
    decreases k,
{
    if k == 0 {
        assert(s.take(0) =~= Seq::<char>::empty());
    } else {
        lemma_split_step(s.skip(1), sep, k - 1);
        lemma_split_len(s.skip(1).skip(k), sep);
        assert(s.skip(1).skip(k) =~= s.skip(k + 1));
        assert(s.skip(1).take(k - 1) =~= s.take(k).skip(1));
        let rest = spec_split(s.skip(1), sep);
        assert(rest[0] == s.take(k).skip(1));
        assert(seq![s[0]] + s.take(k).skip(1) =~= s.take(k));
    }
}

/// Split `s` at every occurrence of `sep`.
pub fn split_char(s: &str, sep: char) -> (r: Vec<String>)
    ensures
        views(r@) == spec_split(s@, sep),
        r@.len() >= 1,
{
    let len = s.unicode_len();
    let mut acc: Vec<String> = Vec::new();
    let mut start: usize = 0;
    let mut i: usize = 0;
    proof {
        assert(s@.skip(0) =~= s@);
        assert(views(acc@) =~= Seq::<Seq<char>>::empty());
    }
    while i < len
        invariant
            len == s@.len(),
            0 <= start <= i <= len,
            forall|j: int| start <= j < i ==> s@[j] != sep,
            spec_split(s@, sep) =~= views(acc@) + spec_split(s@.skip(start as int), sep),
        decreases len - i,
    {
        if s.get_char(i) == sep {
            let seg = substr_string(s, start, i);
            proof {
                let tail = s@.skip(start as int);
                lemma_split_step(tail, sep, i - start);
                assert(tail.take(i - start) =~= s@.subrange(start as int, i as int));
                assert(tail.skip(i - start + 1) =~= s@.skip(i + 1));
                assert(views(acc@.push(seg)) =~= views(acc@) + seq![seg@]);
            }
            acc.push(seg);
            start = i + 1;
        }
        i += 1;
    }
    let seg = substr_string(s, start, len);
    proof {
        let tail = s@.skip(start as int);
        assert(tail =~= s@.subrange(start as int, len as int));
        lemma_split_whole(tail, sep);
        assert(views(acc@.push(seg)) =~= views(acc@) + seq![seg@]);
    }
    acc.push(seg);
    proof {
        assert(views(acc@) =~= spec_split(s@, sep));
        lemma_split_len(s@, sep);
    }
    acc
}

/// The whitespace characters recognized by [`spec_split_ws`].
pub open spec fn is_ws(c: char) -> bool {
    c == ' ' || c == '\t' || c == '\r' || c == '\n'
}

/// Executable test for [`is_ws`].
pub fn is_ws_char(c: char) -> (r: bool)
    ensures
        r == is_ws(c),
{
    c == ' ' || c == '\t' || c == '\r' || c == '\n'
}

/// The maximal whitespace-free tokens of `s`, in order.
pub open spec fn spec_split_ws(s: Seq<char>) -> Seq<Seq<char>>
    decreases s.len(),
{
    if s.len() == 0 {
        Seq::<Seq<char>>::empty()
    } else {
        let rest = spec_split_ws(s.skip(1));
        if is_ws(s[0]) {
            rest
        } else if s.len() > 1 && !is_ws(s[1]) {
            seq![seq![s[0]] + rest[0]] + rest.skip(1)
        } else {
            seq![seq![s[0]]] + rest
        }
    }
}

/// A whitespace-free prefix of `s` that ends at whitespace (or at the end
/// of `s`) is the first token of `s`.
pub proof fn lemma_ws_token(s: Seq<char>, k: int)
    requires
        0 < k <= s.len(),
        forall|j: int| 0 <= j < k ==> !is_ws(s[j]),
        k < s.len() ==> is_ws(s[k]),
    ensures
        spec_split_ws(s) =~= seq![s.take(k)] + spec_split_ws(s.skip(k)),
        spec_split_ws(s).len() >= 1,
    decreases k,
{
    if k == 1 {
        if s.len() == 1 {
            assert(s.skip(1) =~= Seq::<char>::empty());
            assert(s.take(1) =~= seq![s[0]]);
        } else {
            assert(is_ws(s[1]));
            assert(s.take(1) =~= seq![s[0]]);
        }
    } else {
        lemma_ws_token(s.skip(1), k - 1);
        let rest = spec_split_ws(s.skip(1));
        assert(s.skip(1).take(k - 1) =~= s.take(k).skip(1));
        assert(rest[0] == s.take(k).skip(1));
        assert(seq![s[0]] + s.take(k).skip(1) =~= s.take(k));
        assert(s.skip(1).skip(k - 1) =~= s.skip(k));
        assert(rest.skip(1) == spec_split_ws(s.skip(1)).skip(1));
    }
}

/// Skipping a leading whitespace character leaves the tokens unchanged.
pub proof fn lemma_ws_skip(s: Seq<char>, i: int)
    requires
        0 <= i < s.len(),
        is_ws(s[i]),
    ensures
        spec_split_ws(s.skip(i)) == spec_split_ws(s.skip(i + 1)),
{
    assert(s.skip(i).skip(1) =~= s.skip(i + 1));
    assert(s.skip(i)[0] == s[i]);
}

/// Split `s` into its maximal whitespace-free tokens.
pub fn split_ws(s: &str) -> (r: Vec<String>)
    ensures
        views(r@) == spec_split_ws(s@),
{
    let len = s.unicode_len();
    let mut acc: Vec<String> = Vec::new();
    let mut i: usize = 0;
    proof {
        assert(s@.skip(0) =~= s@);
        assert(views(acc@) =~= Seq::<Seq<char>>::empty());
    }
    while i < len
        invariant
            len == s@.len(),
            0 <= i <= len,
            spec_split_ws(s@) =~= views(acc@) + spec_split_ws(s@.skip(i as int)),
        decreases len - i,
    {
        if is_ws_char(s.get_char(i)) {
            proof {
                lemma_ws_skip(s@, i as int);
            }
            i += 1;
        } else {
            let token_start = i;
            let mut j = i + 1;
            while j < len && !is_ws_char(s.get_char(j))
                invariant
                    len == s@.len(),
                    0 <= token_start < j <= len,
                    forall|t: int| token_start <= t < j ==> !is_ws(s@[t]),
                decreases len - j,
            {
                j += 1;
            }
            let seg = substr_string(s, token_start, j);
            proof {
                let tail = s@.skip(token_start as int);
                lemma_ws_token(tail, j - token_start);
                assert(tail.take(j - token_start) =~= s@.subrange(
                    token_start as int,
                    j as int,
                ));
                assert(tail.skip(j - token_start) =~= s@.skip(j as int));
                assert(views(acc@.push(seg)) =~= views(acc@) + seq![seg@]);
            }
            acc.push(seg);
            i = j;
        }
    }
    proof {
        assert(s@.skip(len as int) =~= Seq::<char>::empty());
        assert(views(acc@) =~= spec_split_ws(s@));
    }
    acc
}

/// A line with a trailing carriage return removed.
pub open spec fn strip_cr(l: Seq<char>) -> Seq<char> {
    if l.len() > 0 && l.last() == '\r' {
        l.drop_last()
    } else {
        l
    }
}

/// The lines of `s`: stretches between newline characters, without a
/// trailing empty line, each with any trailing carriage return removed.
pub open spec fn spec_lines(s: Seq<char>) -> Seq<Seq<char>> {
    let parts = spec_split(s, '\n');
    let trimmed = if parts.last().len() == 0 {
        parts.drop_last()
    } else {
        parts
    };
    trimmed.map_values(|l: Seq<char>| strip_cr(l))
}

/// Split `s` into lines, as [`spec_lines`] describes.
pub fn split_lines(s: &str) -> (r: Vec<String>)
    ensures
        views(r@) == spec_lines(s@),
{
    let mut parts = split_char(s, '\n');
    proof {
        lemma_split_len(s@, '\n');
    }
    let last_len = parts[parts.len() - 1].as_str().unicode_len();
    if last_len == 0 {
        let _ = parts.pop();
    }
    let ghost trimmed = views(parts@);
    let mut out: Vec<String> = Vec::new();
    let mut i: usize = 0;
    while i < parts.len()
        invariant
            0 <= i <= parts@.len(),
            trimmed == views(parts@),
            out@.len() == i,
            forall|j: int| 0 <= j < i ==> out@[j]@ == strip_cr(trimmed[j]),
        decreases parts@.len() - i,
    {
        let line = &parts[i];
        let llen = line.as_str().unicode_len();
        if llen > 0 && line.as_str().get_char(llen - 1) == '\r' {
            let stripped = substr_string(line.as_str(), 0, llen - 1);
            proof {
                assert(stripped@ =~= strip_cr(line@));
            }
            out.push(stripped);
        } else {
            let copy = substr_string(line.as_str(), 0, llen);
            proof {
                assert(copy@ =~= line@);
                assert(copy@ =~= strip_cr(line@));
            }
            out.push(copy);
        }
        i += 1;
    }
    proof {
        let target = trimmed.map_values(|l: Seq<char>| strip_cr(l));
        assert forall|j: int| 0 <= j < out@.len() implies views(out@)[j] == target[j] by {
            assert(views(out@)[j] == out@[j]@);
        }
        assert(views(out@) =~= target);
    }
    out
}

/// `s` without its leading whitespace.
pub open spec fn spec_trim_start(s: Seq<char>) -> Seq<char>
    decreases s.len(),
{
    if s.len() > 0 && is_ws(s[0]) {
        spec_trim_start(s.skip(1))
    } else {
        s
    }
}

/// `s` without its trailing whitespace.
pub open spec fn spec_trim_end(s: Seq<char>) -> Seq<char>
    decreases s.len(),
{
    if s.len() > 0 && is_ws(s.last()) {
        spec_trim_end(s.drop_last())
    } else {
        s
    }
}

/// `s` without leading or trailing whitespace.
pub open spec fn spec_trim(s: Seq<char>) -> Seq<char> {
    spec_trim_end(spec_trim_start(s))
}

/// Trim whitespace from both ends of `s`.
pub fn trim(s: &str) -> (r: String)
    ensures
        r@ == spec_trim(s@),
{
    let len = s.unicode_len();
    let mut a: usize = 0;
    proof {
        assert(s@.skip(0) =~= s@);
    }
    while a < len && is_ws_char(s.get_char(a))
        invariant
            len == s@.len(),
            0 <= a <= len,
            spec_trim_start(s@) == spec_trim_start(s@.skip(a as int)),
        decreases len - a,
    {
        proof {
            assert(s@.skip(a as int).skip(1) =~= s@.skip(a + 1));
        }
        a += 1;
    }
    let ghost st = s@.skip(a as int);
    proof {
        assert(st.len() == 0 || !is_ws(st[0]));
        assert(spec_trim_start(st) == st);
    }
    let mut b: usize = len;
    while b > a && is_ws_char(s.get_char(b - 1))
        invariant
            len == s@.len(),
            a <= b <= len,
            st == s@.skip(a as int),
            spec_trim_end(st) == spec_trim_end(s@.subrange(a as int, b as int)),
        decreases b,
    {
        proof {
            let cur = s@.subrange(a as int, b as int);
            assert(cur.last() == s@[b - 1]);
            assert(cur.drop_last() =~= s@.subrange(a as int, b - 1));
            assert(st =~= s@.subrange(a as int, len as int));
        }
        b -= 1;
    }
    proof {
        let cur = s@.subrange(a as int, b as int);
        assert(st =~= s@.subrange(a as int, len as int));
        if b > a {
            assert(cur.last() == s@[b - 1]);
            assert(!is_ws(cur.last()));
        }
        assert(spec_trim_end(cur) == cur);
    }
    substr_string(s, a, b)
}

/// The strings of `parts` concatenated with `sep` between neighbours.
pub open spec fn spec_join(parts: Seq<Seq<char>>, sep: Seq<char>) -> Seq<char>
    decreases parts.len(),
{
    if parts.len() == 0 {
        Seq::<char>::empty()
    } else if parts.len() == 1 {
        parts[0]
    } else {
        parts[0] + sep + spec_join(parts.skip(1), sep)
    }
}

/// Join owned strings with a separator.
pub fn join_strings(parts: &Vec<String>, sep: &str) -> (r: String)
    ensures
        r@ == spec_join(views(parts@), sep@),
{
    let mut out = String::new();
    let mut i: usize = 0;
    proof {
        assert(views(parts@).take(0) =~= Seq::<Seq<char>>::empty());
        assert(out@ =~= spec_join(views(parts@).take(0), sep@));
    }
    while i < parts.len()
        invariant
            0 <= i <= parts@.len(),
            out@ == spec_join(views(parts@).take(i as int), sep@),
        decreases parts@.len() - i,
    {
        if i > 0 {
            out.append(sep);
        }
        out.append(parts[i].as_str());
        proof {
            let vs = views(parts@);
            assert(vs.take(i + 1) =~= vs.take(i as int).push(vs[i as int]));
            lemma_join_push(vs.take(i as int), vs[i as int], sep@);
            assert(vs[i as int] == parts@[i as int]@);
        }
        i += 1;
    }
    proof {
        assert(views(parts@).take(parts@.len() as int) =~= views(parts@));
    }
    out
}

/// Appending one more string to a join appends a separator and the string
/// (or just the string, to an empty join).
proof fn lemma_join_push(parts: Seq<Seq<char>>, x: Seq<char>, sep: Seq<char>)
    ensures
        parts.len() == 0 ==> spec_join(parts.push(x), sep) == x,
        parts.len() > 0 ==> spec_join(parts.push(x), sep) == spec_join(parts, sep) + sep + x,
    decreases parts.len(),
{
    if parts.len() == 0 {
        assert(parts.push(x)[0] == x);
        assert(spec_join(parts.push(x), sep) == x);
    } else if parts.len() == 1 {
        let p = parts.push(x);
        assert(p.skip(1) =~= seq![x]);
        assert(spec_join(p.skip(1), sep) == x);
        assert(p[0] == parts[0]);
        assert(spec_join(parts, sep) == parts[0]);
    } else {
        lemma_join_push(parts.skip(1), x, sep);
        let p = parts.push(x);
        assert(p.skip(1) =~= parts.skip(1).push(x));
        assert(p[0] == parts[0]);
        assert(spec_join(p, sep) == p[0] + sep + spec_join(p.skip(1), sep));
        assert(spec_join(parts, sep) == parts[0] + sep + spec_join(parts.skip(1), sep));
        assert(parts[0] + sep + (spec_join(parts.skip(1), sep) + sep + x) =~= (parts[0] + sep
            + spec_join(parts.skip(1), sep)) + sep + x);
    }
}

/// Decimal digits.
pub open spec fn is_digit(c: char) -> bool {
    '0' <= c && c <= '9'
}

/// Numeric value of a decimal digit.
pub open spec fn digit_val(c: char) -> nat {
    (c as nat - '0' as nat) as nat
}

pub open spec fn all_digits(s: Seq<char>) -> bool {
    forall|j: int| 0 <= j < s.len() ==> is_digit(s[j])
}

/// The number a sequence of decimal digits denotes.
pub open spec fn dec_val(s: Seq<char>) -> nat
    decreases s.len(),
{
    if s.len() == 0 {
        0
    } else {
        dec_val(s.drop_last()) * 10 + digit_val(s.last())
    }
}

/// Appending digits never decreases the denoted value.
proof fn lemma_dec_val_grows(s: Seq<char>, i: int)
    requires
        0 <= i <= s.len(),
    ensures
        dec_val(s.take(i)) <= dec_val(s),
    decreases s.len() - i,
{
    if i < s.len() {
        lemma_dec_val_grows(s, i + 1);
        assert(s.take(i + 1).drop_last() =~= s.take(i));
        assert(dec_val(s.take(i + 1)) == dec_val(s.take(i)) * 10 + digit_val(s.take(i + 1).last()));
    } else {
        assert(s.take(i) =~= s);
    }
}

/// Parse an unsigned decimal number. Fails on an empty string, any
/// non-digit character, or overflow.
pub fn parse_u64(s: &str) -> (r: Option<u64>)
    ensures
        match r {
            Some(v) => s@.len() > 0 && all_digits(s@) && v == dec_val(s@) && dec_val(s@)
                <= u64::MAX,
            None => s@.len() == 0 || !all_digits(s@) || dec_val(s@) > u64::MAX,
        },
{
    let len = s.unicode_len();
    if len == 0 {
        return None;
    }
    let mut acc: u64 = 0;
    let mut i: usize = 0;
    proof {
        assert(s@.take(0) =~= Seq::<char>::empty());
    }
    while i < len
        invariant
            len == s@.len(),
            0 <= i <= len,
            forall|j: int| 0 <= j < i ==> is_digit(s@[j]),
            acc == dec_val(s@.take(i as int)),
        decreases len - i,
    {
        let c = s.get_char(i);
        if c < '0' || c > '9' {
            assert(!is_digit(s@[i as int]));
            return None;
        }
        let d: u64 = (c as u32 - '0' as u32) as u64;
        let acc10 = match acc.checked_mul(10) {
            Some(v) => v,
            None => {
                proof {
                    overflow_witness(s@, i as int, acc, d);
                }
                return None;
            },
        };
        let next = match acc10.checked_add(d) {
            Some(v) => v,
            None => {
                proof {
                    overflow_witness(s@, i as int, acc, d);
                }
                return None;
            },
        };
        proof {
            assert(s@.take(i + 1).drop_last() =~= s@.take(i as int));
            assert(s@.take(i + 1).last() == s@[i as int]);
        }
        acc = next;
        i += 1;
    }
    proof {
        assert(s@.take(len as int) =~= s@);
    }
    Some(acc)
}

/// When the running value would exceed `u64::MAX`, so does the whole
/// string's value.
proof fn overflow_witness(s: Seq<char>, i: int, acc: u64, d: u64)
    requires
        0 <= i < s.len(),
        acc == dec_val(s.take(i)),
        d == digit_val(s[i]),
        acc * 10 + d > u64::MAX,
    ensures
        dec_val(s) > u64::MAX,
{
    assert(s.take(i + 1).drop_last() =~= s.take(i));
    assert(s.take(i + 1).last() == s[i]);
    assert(dec_val(s.take(i + 1)) == acc * 10 + d);
    lemma_dec_val_grows(s, i + 1);
}

/// Parse a decimal number that must fit in an `i32`. Only digits are
/// accepted; there is no sign.
pub fn parse_i32(s: &str) -> (r: Option<i32>)
    ensures
        match r {
            Some(v) => s@.len() > 0 && all_digits(s@) && v == dec_val(s@) && dec_val(s@)
                <= i32::MAX,
            None => s@.len() == 0 || !all_digits(s@) || dec_val(s@) > i32::MAX,
        },
{
    match parse_u64(s) {
        Some(v) => {
            if v <= i32::MAX as u64 {
                Some(v as i32)
            } else {
                None
            }
        },
        None => {
            proof {
                if s@.len() > 0 && all_digits(s@) {
                    assert(dec_val(s@) > u64::MAX >= i32::MAX);
                }
            }
            None
        },
    }
}

/// The decimal representation of `n`, most significant digit first.
pub open spec fn spec_dec_string(n: nat) -> Seq<char>
    decreases n,
{
    if n < 10 {
        seq![spec_digit_char(n)]
    } else {
        spec_dec_string(n / 10) + seq![spec_digit_char(n % 10)]
    }
}

/// The decimal digit character for a value below ten.
pub open spec fn spec_digit_char(d: nat) -> char {
    if d == 0 {
        '0'
    } else if d == 1 {
        '1'
    } else if d == 2 {
        '2'
    } else if d == 3 {
        '3'
    } else if d == 4 {
        '4'
    } else if d == 5 {
        '5'
    } else if d == 6 {
        '6'
    } else if d == 7 {
        '7'
    } else if d == 8 {
        '8'
    } else {
        '9'
    }
}

fn digit_str(d: u64) -> (r: &'static str)
    requires
        d < 10,
    ensures
        r@ =~= seq![spec_digit_char(d as nat)],
{
    let r = match d {
        0 => "0",
        1 => "1",
        2 => "2",
        3 => "3",
        4 => "4",
        5 => "5",
        6 => "6",
        7 => "7",
        8 => "8",
        _ => "9",
    };
    proof {
        reveal_strlit("0");
        reveal_strlit("1");
        reveal_strlit("2");
        reveal_strlit("3");
        reveal_strlit("4");
        reveal_strlit("5");
        reveal_strlit("6");
        reveal_strlit("7");
        reveal_strlit("8");
        reveal_strlit("9");
    }
    r
}

/// Format `n` in decimal.
pub fn u64_string(n: u64) -> (r: String)
    ensures
        r@ == spec_dec_string(n as nat),
    decreases n,
{
    if n < 10 {
        String::from_str(digit_str(n))
    } else {
        let mut prefix = u64_string(n / 10);
        prefix.append(digit_str(n % 10));
        prefix
    }
}

/// Format a non-negative `i32` in decimal.
pub fn i32_string(n: i32) -> (r: String)
    requires
        n >= 0,
    ensures
        r@ == spec_dec_string(n as nat),
{
    u64_string(n as u64)
}

/// Lower-case form of an ASCII character; other characters are unchanged.
pub open spec fn lower_char(c: char) -> char {
    if 'A' <= c && c <= 'Z' {
        ((c as u32) + 32) as char
    } else {
        c
    }
}

/// Upper-case form of an ASCII character; other characters are unchanged.
pub open spec fn upper_char(c: char) -> char {
    if 'a' <= c && c <= 'z' {
        ((c as u32) - 32) as char
    } else {
        c
    }
}

/// `s` with every ASCII letter lower-cased.
pub open spec fn spec_lower(s: Seq<char>) -> Seq<char> {
    s.map_values(|c: char| lower_char(c))
}

/// `s` lower-cased with its first character upper-cased: the form used for
/// vendor and model names recovered from device listings.
pub open spec fn spec_capitalize(s: Seq<char>) -> Seq<char> {
    if s.len() == 0 {
        s
    } else {
        seq![upper_char(lower_char(s[0]))] + spec_lower(s).skip(1)
    }
}

fn lower_char_exec(c: char) -> (r: char)
    ensures
        r == lower_char(c),
{
    if 'A' <= c && c <= 'Z' {
        (((c as u32) + 32) as u8) as char
    } else {
        c
    }
}

fn upper_char_exec(c: char) -> (r: char)
    ensures
        r == upper_char(c),
{
    if 'a' <= c && c <= 'z' {
        (((c as u32) - 32) as u8) as char
    } else {
        c
    }
}

/// Lower-case every ASCII letter of `s` and upper-case the first
/// character, as device vendor and model names are normalized.
pub fn capitalize(s: &str) -> (r: String)
    ensures
        r@ == spec_capitalize(s@),
{
    let len = s.unicode_len();
    if len == 0 {
        let out = String::new();
        proof {
            assert(out@ =~= s@);
        }
        return out;
    }
    let mut out = String::new();
    let mut i: usize = 0;
    while i < len
        invariant
            len == s@.len(),
            0 < len,
            0 <= i <= len,
            out@.len() == i,
            forall|j: int| 0 < j < i ==> out@[j] == lower_char(s@[j]),
            i > 0 ==> out@[0] == upper_char(lower_char(s@[0])),
        decreases len - i,
    {
        let c = s.get_char(i);
        let mapped = if i == 0 {
            upper_char_exec(lower_char_exec(c))
        } else {
            lower_char_exec(c)
        };
        let cs = char_string_any(mapped);
        out.append(cs.as_str());
        i += 1;
    }
    proof {
        assert(out@ =~= spec_capitalize(s@));
    }
    out
}

/// A single-character string. Relies on `String::push` for the one
/// character.
#[verifier::external_body]
fn char_string_any(c: char) -> (r: String)
    ensures
        r@ == seq![c],
{
    let mut s = String::new();
    s.push(c);
    s
}

} // verus!
