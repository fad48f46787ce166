//! The recent-activity view: the union of the latest scan and print
//! jobs, kept to those completed within the trailing hour, ordered by
//! completion time descending, and truncated to a fixed display count.

use vstd::prelude::*;
use crate::clock::{spec_within_last_hour, was_within_last_hour, HOUR_MS};
use crate::job::Job;
use crate::print_job::PrintJob;
use crate::scan_job::ScanJob;

verus! {

/// How many jobs the recent-activity view shows at most.
pub const RECENT_LIMIT: usize = 4;

/// The ordering key: completion time, with never-completed jobs below
/// every completed one.
pub open spec fn spec_job_key(j: Job) -> i64 {
    match j.spec_completed_at() {
        Some(t) => t,
        None => i64::MIN,
    }
}

/// The ordering key of a job.
pub fn job_key(j: &Job) -> (r: i64)
    ensures
        r == spec_job_key(*j),
{
    match j.completed_at() {
        Some(t) => t,
        None => i64::MIN,
    }
}

/// Membership in the trailing hour before `now`, as a predicate on jobs.
pub open spec fn recent_pred(now: i64) -> spec_fn(Job) -> bool {
    |j: Job| spec_within_last_hour(j.spec_completed_at(), now)
}

/// The jobs completed within the trailing hour before `now`, in their
/// given order.
pub open spec fn spec_recent_filter(all: Seq<Job>, now: i64) -> Seq<Job> {
    all.filter(recent_pred(now))
}

/// Unfolding [`spec_recent_filter`] one element at a time.
proof fn lemma_recent_filter_step(t: Seq<Job>, now: i64)
    requires
        t.len() > 0,
    ensures
        spec_recent_filter(t, now) == if spec_within_last_hour(
            t.last().spec_completed_at(),
            now,
        ) {
            spec_recent_filter(t.drop_last(), now).push(t.last())
        } else {
            spec_recent_filter(t.drop_last(), now)
        },
{
    reveal(Seq::filter);
}

/// Insertion into a descending-ordered sequence: the job goes in front
/// of the first element whose key is not larger.
pub open spec fn spec_insert_desc(s: Seq<Job>, j: Job) -> Seq<Job>
    decreases s.len(),
{
    if s.len() == 0 {
        seq![j]
    } else if spec_job_key(j) >= spec_job_key(s[0]) {
        seq![j] + s
    } else {
        seq![s[0]] + spec_insert_desc(s.skip(1), j)
    }
}

/// Sorting by key descending, one insertion per element.
pub open spec fn spec_sort_desc(s: Seq<Job>) -> Seq<Job>
    decreases s.len(),
{
    if s.len() == 0 {
        s
    } else {
        spec_insert_desc(spec_sort_desc(s.drop_last()), s.last())
    }
}

/// Where [`spec_insert_desc`] puts the new job: before the first element
/// with a key not above the new job's.
proof fn lemma_insert_desc_at(s: Seq<Job>, j: Job, k: int)
    requires
        0 <= k <= s.len(),
        forall|i: int| 0 <= i < k ==> spec_job_key(j) < spec_job_key(s[i]),
        k < s.len() ==> spec_job_key(j) >= spec_job_key(s[k]),
    ensures
        spec_insert_desc(s, j) =~= s.take(k) + seq![j] + s.skip(k),
    decreases k,
{
    if k == 0 {
        if s.len() == 0 {
            assert(spec_insert_desc(s, j) == seq![j]);
        }
        assert(s.take(0) =~= Seq::<Job>::empty());
        assert(s.skip(0) =~= s);
    } else {
        lemma_insert_desc_at(s.skip(1), j, k - 1);
        assert(s.skip(1).take(k - 1) =~= s.take(k).skip(1));
        assert(s.skip(1).skip(k - 1) =~= s.skip(k));
        assert(seq![s[0]] + (s.take(k).skip(1) + seq![j] + s.skip(k)) =~= s.take(k) + seq![j]
            + s.skip(k));
    }
}

/// Insert a job into a descending-ordered vector of jobs.
fn insert_desc(acc: &mut Vec<Job>, j: Job)
    ensures
        final(acc)@ == spec_insert_desc(old(acc)@, j),
{
    let key = job_key(&j);
    let mut k: usize = 0;
    while k < acc.len() && key < job_key(&acc[k])
        invariant
            0 <= k <= acc@.len(),
            acc@ == old(acc)@,
            forall|i: int| 0 <= i < k ==> spec_job_key(j) < spec_job_key(acc@[i]),
            key == spec_job_key(j),
        decreases acc@.len() - k,
    {
        k += 1;
    }
    proof {
        lemma_insert_desc_at(acc@, j, k as int);
    }
    acc.insert(k, j);
    proof {
        assert(final(acc)@ =~= old(acc)@.take(k as int) + seq![j] + old(acc)@.skip(k as int));
    }
}

/// The recent-activity view of the given candidate jobs: the scans and
/// prints merged (scans first), filtered to completions within the
/// trailing hour before `now`, sorted by completion time descending, and
/// truncated to [`RECENT_LIMIT`].
pub open spec fn spec_recent_activity(scans: Seq<ScanJob>, prints: Seq<PrintJob>, now: i64) -> Seq<
    Job,
> {
    let all = scans.map_values(|s: ScanJob| Job::Scan(s)) + prints.map_values(
        |p: PrintJob| Job::Print(p),
    );
    let sorted = spec_sort_desc(spec_recent_filter(all, now));
    if sorted.len() > RECENT_LIMIT {
        sorted.take(RECENT_LIMIT as int)
    } else {
        sorted
    }
}

/// Compute the recent-activity view, as [`spec_recent_activity`]
/// describes: of jobs completed 90 minutes and 10 minutes ago, only the
/// latter is shown.
pub fn recent_activity(scans: &Vec<ScanJob>, prints: &Vec<PrintJob>, now: i64) -> (r: Vec<Job>)
    requires
        now >= i64::MIN + HOUR_MS,
    ensures
        r@ == spec_recent_activity(scans@, prints@, now),
{
    let ghost all_spec = scans@.map_values(|s: ScanJob| Job::Scan(s)) + prints@.map_values(
        |p: PrintJob| Job::Print(p),
    );
    let mut all: Vec<Job> = Vec::new();
    let mut i: usize = 0;
    while i < scans.len()
        invariant
            0 <= i <= scans@.len(),
            all@.len() == i,
            forall|k: int| 0 <= k < i ==> all@[k] == Job::Scan(scans@[k]),
        decreases scans@.len() - i,
    {
        all.push(Job::Scan(scans[i].duplicate()));
        i += 1;
    }
    let mut p: usize = 0;
    while p < prints.len()
        invariant
            0 <= p <= prints@.len(),
            all@.len() == scans@.len() + p,
            forall|k: int| 0 <= k < scans@.len() ==> all@[k] == Job::Scan(scans@[k]),
            forall|k: int| 0 <= k < p ==> all@[scans@.len() + k] == Job::Print(prints@[k]),
        decreases prints@.len() - p,
    {
        all.push(Job::Print(prints[p].duplicate()));
        p += 1;
    }
    proof {
        assert(all@ =~= all_spec);
    }
    let mut recent: Vec<Job> = Vec::new();
    let mut f: usize = 0;
    proof {
        reveal(Seq::filter);
        assert(all@.take(0) =~= Seq::<Job>::empty());
        assert(recent@ =~= spec_recent_filter(all@.take(0), now));
    }
    while f < all.len()
        invariant
            0 <= f <= all@.len(),
            now >= i64::MIN + HOUR_MS,
            recent@ == spec_recent_filter(all@.take(f as int), now),
        decreases all@.len() - f,
    {
        let j = all[f].duplicate();
        let within = was_within_last_hour(j.completed_at(), now);
        proof {
            let t = all@.take(f + 1);
            assert(t.drop_last() =~= all@.take(f as int));
            assert(t.last() == all@[f as int]);
            lemma_recent_filter_step(t, now);
        }
        if within {
            recent.push(j);
        }
        f += 1;
    }
    proof {
        assert(all@.take(all@.len() as int) =~= all@);
    }
    let mut sorted: Vec<Job> = Vec::new();
    let mut s: usize = 0;
    proof {
        assert(recent@.take(0) =~= Seq::<Job>::empty());
        assert(sorted@ =~= spec_sort_desc(recent@.take(0)));
    }
    while s < recent.len()
        invariant
            0 <= s <= recent@.len(),
            sorted@ == spec_sort_desc(recent@.take(s as int)),
        decreases recent@.len() - s,
    {
        let j = recent[s].duplicate();
        proof {
            let t = recent@.take(s + 1);
            assert(t.drop_last() =~= recent@.take(s as int));
            assert(t.last() == recent@[s as int]);
        }
        insert_desc(&mut sorted, j);
        s += 1;
    }
    proof {
        assert(recent@.take(recent@.len() as int) =~= recent@);
    }
    if sorted.len() > RECENT_LIMIT {
        let mut out: Vec<Job> = Vec::new();
        let mut t: usize = 0;
        while t < RECENT_LIMIT
            invariant
                0 <= t <= RECENT_LIMIT,
                RECENT_LIMIT < sorted@.len(),
                out@.len() == t,
                forall|k: int| 0 <= k < t ==> out@[k] == sorted@[k],
                sorted@ == spec_sort_desc(spec_recent_filter(all_spec, now)),
            decreases RECENT_LIMIT - t,
        {
            out.push(sorted[t].duplicate());
            t += 1;
        }
        proof {
            assert(out@ =~= sorted@.take(RECENT_LIMIT as int));
        }
        out
    } else {
        sorted
    }
}

/// Every job in the recent-activity view completed within the trailing
/// hour before `now`: in particular, a job completed 90 minutes ago never
/// appears, while one completed 10 minutes ago may.
pub proof fn lemma_recent_activity_within_hour(
    scans: Seq<ScanJob>,
    prints: Seq<PrintJob>,
    now: i64,
    i: int,
)
    requires
        0 <= i < spec_recent_activity(scans, prints, now).len(),
    ensures
        spec_within_last_hour(spec_recent_activity(scans, prints, now)[i].spec_completed_at(), now),
{
    let all = scans.map_values(|s: ScanJob| Job::Scan(s)) + prints.map_values(
        |p: PrintJob| Job::Print(p),
    );
    let pred = recent_pred(now);
    let recent = spec_recent_filter(all, now);
    lemma_sort_desc_preserves_pred(recent, pred);
    let sorted = spec_sort_desc(recent);
    assert forall|k: int| 0 <= k < recent.len() implies pred(recent[k]) by {
        all.lemma_filter_pred(pred, k);
    }
    assert(pred(sorted[i]));
}

/// Non-increasing completion keys: how the display orders jobs.
pub open spec fn sorted_desc(s: Seq<Job>) -> bool {
    forall|a: int, b: int| 0 <= a <= b < s.len() ==> spec_job_key(s[a]) >= spec_job_key(s[b])
}

/// Insertion keeps the descending order.
proof fn lemma_insert_desc_sorted(s: Seq<Job>, j: Job)
    requires
        sorted_desc(s),
    ensures
        sorted_desc(spec_insert_desc(s, j)),
    decreases s.len(),
{
    if s.len() == 0 {
        let r = spec_insert_desc(s, j);
        assert(r == seq![j]);
    } else if spec_job_key(j) >= spec_job_key(s[0]) {
        let r = seq![j] + s;
        assert forall|a: int, b: int|
            0 <= a <= b < r.len() implies spec_job_key(r[a]) >= spec_job_key(r[b]) by {
            if a == 0 {
                if b > 0 {
                    assert(r[b] == s[b - 1]);
                    assert(spec_job_key(s[0]) >= spec_job_key(s[b - 1]));
                }
            } else {
                assert(r[a] == s[a - 1]);
                assert(r[b] == s[b - 1]);
            }
        }
    } else {
        let t = s.skip(1);
        assert forall|a: int, b: int|
            0 <= a <= b < t.len() implies spec_job_key(t[a]) >= spec_job_key(t[b]) by {
            assert(t[a] == s[a + 1]);
            assert(t[b] == s[b + 1]);
        }
        lemma_insert_desc_sorted(t, j);
        let ins = spec_insert_desc(t, j);
        let bound = |x: Job| spec_job_key(x) <= spec_job_key(s[0]);
        lemma_insert_desc_preserves_pred(t, j, bound);
        assert forall|k: int| 0 <= k < t.len() implies bound(t[k]) by {
            assert(t[k] == s[k + 1]);
            assert(spec_job_key(s[0]) >= spec_job_key(s[k + 1]));
        }
        assert(forall|k: int| 0 <= k < ins.len() ==> bound(ins[k]));
        let r = seq![s[0]] + ins;
        assert forall|a: int, b: int|
            0 <= a <= b < r.len() implies spec_job_key(r[a]) >= spec_job_key(r[b]) by {
            if a == 0 {
                if b > 0 {
                    assert(r[b] == ins[b - 1]);
                    assert(bound(ins[b - 1]));
                }
            } else {
                assert(r[a] == ins[a - 1]);
                assert(r[b] == ins[b - 1]);
            }
        }
    }
}

/// Sorting yields a descending order.
pub proof fn lemma_sort_desc_sorted(s: Seq<Job>)
    ensures
        sorted_desc(spec_sort_desc(s)),
    decreases s.len(),
{
    if s.len() > 0 {
        lemma_sort_desc_sorted(s.drop_last());
        lemma_insert_desc_sorted(spec_sort_desc(s.drop_last()), s.last());
    }
}

/// The recent-activity view is ordered by completion time descending:
/// each job shown completed no earlier than the one after it.
pub proof fn lemma_recent_activity_sorted(scans: Seq<ScanJob>, prints: Seq<PrintJob>, now: i64)
    ensures
        sorted_desc(spec_recent_activity(scans, prints, now)),
{
    let all = scans.map_values(|s: ScanJob| Job::Scan(s)) + prints.map_values(
        |p: PrintJob| Job::Print(p),
    );
    let sorted = spec_sort_desc(spec_recent_filter(all, now));
    lemma_sort_desc_sorted(spec_recent_filter(all, now));
    let r = spec_recent_activity(scans, prints, now);
    assert forall|a: int, b: int|
        0 <= a <= b < r.len() implies spec_job_key(r[a]) >= spec_job_key(r[b]) by {
        assert(r[a] == sorted[a]);
        assert(r[b] == sorted[b]);
    }
}

/// Sorting keeps every element's membership properties: each element of
/// the sorted sequence satisfies any predicate that all inputs satisfy.
proof fn lemma_sort_desc_preserves_pred(s: Seq<Job>, pred: spec_fn(Job) -> bool)
    ensures
        (forall|i: int| 0 <= i < s.len() ==> pred(s[i])) ==> forall|i: int|
            0 <= i < spec_sort_desc(s).len() ==> pred(spec_sort_desc(s)[i]),
    decreases s.len(),
{
    if s.len() > 0 {
        lemma_sort_desc_preserves_pred(s.drop_last(), pred);
        if forall|i: int| 0 <= i < s.len() ==> pred(s[i]) {
            assert forall|i: int| 0 <= i < s.drop_last().len() implies pred(s.drop_last()[i]) by {
                assert(s.drop_last()[i] == s[i]);
            }
            lemma_insert_desc_preserves_pred(spec_sort_desc(s.drop_last()), s.last(), pred);
        }
    }
}

/// Insertion keeps every element's membership properties.
proof fn lemma_insert_desc_preserves_pred(s: Seq<Job>, j: Job, pred: spec_fn(Job) -> bool)
    ensures
        ((forall|i: int| 0 <= i < s.len() ==> pred(s[i])) && pred(j)) ==> forall|i: int|
            0 <= i < spec_insert_desc(s, j).len() ==> pred(spec_insert_desc(s, j)[i]),
    decreases s.len(),
{
    if s.len() > 0 {
        lemma_insert_desc_preserves_pred(s.skip(1), j, pred);
        if (forall|i: int| 0 <= i < s.len() ==> pred(s[i])) && pred(j) {
            assert forall|i: int| 0 <= i < s.skip(1).len() implies pred(s.skip(1)[i]) by {
                assert(s.skip(1)[i] == s[i + 1]);
            }
            if spec_job_key(j) < spec_job_key(s[0]) {
                let r = seq![s[0]] + spec_insert_desc(s.skip(1), j);
                assert forall|i: int| 0 <= i < r.len() implies pred(r[i]) by {
                    if i == 0 {
                        assert(r[0] == s[0]);
                    } else {
                        assert(r[i] == spec_insert_desc(s.skip(1), j)[i - 1]);
                    }
                }
            }
        }
    }
}

} // verus!
