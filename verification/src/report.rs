//! Aggregation of per-domain statuses into a summarized report, and the
//! display filter that narrows a report to its unregistered domains.

use vstd::prelude::*;
use crate::status::DomainStatus;

verus! {

/// Summary counts over the domain statuses of a report.
pub struct ResultSummary {
    pub total_checked: usize,
    pub registered: usize,
    pub unregistered: usize,
    pub errors: usize,
}

/// The final report: the collected statuses together with their summary and
/// the timestamp of completion.
pub struct CheckResult {
    pub timestamp: String,
    pub check_count: usize,
    pub domains: Vec<DomainStatus>,
    pub summary: ResultSummary,
}

/// How many statuses carry a registered verdict.
pub open spec fn count_registered(s: Seq<DomainStatus>) -> int
    decreases s.len(),
{
    if s.len() == 0 {
        0
    } else {
        count_registered(s.drop_last()) + (if s.last().registered {
            1int
        } else {
            0int
        })
    }
}

/// How many statuses carry an unregistered verdict.
pub open spec fn count_unregistered(s: Seq<DomainStatus>) -> int
    decreases s.len(),
{
    if s.len() == 0 {
        0
    } else {
        count_unregistered(s.drop_last()) + (if !s.last().registered {
            1int
        } else {
            0int
        })
    }
}

/// How many statuses carry an error.
pub open spec fn count_errors(s: Seq<DomainStatus>) -> int
    decreases s.len(),
{
    if s.len() == 0 {
        0
    } else {
        count_errors(s.drop_last()) + (if s.last().error is Some {
            1int
        } else {
            0int
        })
    }
}

/// The subsequence of statuses with an unregistered verdict, in order.
pub open spec fn unregistered_of(s: Seq<DomainStatus>) -> Seq<DomainStatus>
    decreases s.len(),
{
    if s.len() == 0 {
        Seq::empty()
    } else if !s.last().registered {
        unregistered_of(s.drop_last()).push(s.last())
    } else {
        unregistered_of(s.drop_last())
    }
}

/// Every status is either registered or unregistered, so the two summary
/// counts always partition the total.
pub proof fn lemma_summary_partition(s: Seq<DomainStatus>)
    ensures
        count_registered(s) + count_unregistered(s) == s.len(),
    decreases s.len(),
{
    if s.len() > 0 {
        lemma_summary_partition(s.drop_last());
    }
}

/// Builds the report over the full status list: the summary counts verdicts
/// and errors across every collected status, and the statuses are kept
/// as given, in aggregation order.
pub fn create_check_result(domains: Vec<DomainStatus>, timestamp: String) -> (r: CheckResult)
    ensures
        r.timestamp == timestamp,
        r.check_count == domains@.len(),
        r.domains == domains,
        r.summary.total_checked == domains@.len(),
        r.summary.registered == count_registered(domains@),
        r.summary.unregistered == count_unregistered(domains@),
        r.summary.errors == count_errors(domains@),
        r.summary.registered + r.summary.unregistered == r.summary.total_checked,
{
    let total_checked = domains.len();
    let mut registered: usize = 0;
    let mut unregistered: usize = 0;
    let mut errors: usize = 0;
    let mut i: usize = 0;
    while i < domains.len()
        invariant
            i <= domains@.len(),
            registered == count_registered(domains@.take(i as int)),
            unregistered == count_unregistered(domains@.take(i as int)),
            errors == count_errors(domains@.take(i as int)),
            registered + unregistered == i,
            errors <= i,
        decreases domains@.len() - i,
    {
        proof {
            assert(domains@.take(i as int + 1).drop_last() =~= domains@.take(i as int));
            assert(domains@.take(i as int + 1).last() == domains@[i as int]);
        }
        if domains[i].registered {
            registered = registered + 1;
        } else {
            unregistered = unregistered + 1;
        }
        if domains[i].error.is_some() {
            errors = errors + 1;
        }
        i = i + 1;
    }
    proof {
        assert(domains@.take(domains@.len() as int) =~= domains@);
    }
    CheckResult {
        timestamp,
        check_count: total_checked,
        domains,
        summary: ResultSummary { total_checked, registered, unregistered, errors },
    }
}

/// The display filter. Inactive, it returns the report unchanged. Active, it
/// keeps only the unregistered statuses, preserves the total, registered and
/// unregistered counts of the original summary unchanged, and recomputes the
/// error count over the retained statuses alone.
pub fn filter_results(result: CheckResult, unregistered_only: bool) -> (r: CheckResult)
    ensures
        !unregistered_only ==> r == result,
        unregistered_only ==> {
            &&& r.timestamp == result.timestamp
            &&& r.check_count == result.summary.total_checked
            &&& r.domains@ == unregistered_of(result.domains@)
            &&& r.summary.total_checked == result.summary.total_checked
            &&& r.summary.registered == result.summary.registered
            &&& r.summary.unregistered == result.summary.unregistered
            &&& r.summary.errors == count_errors(unregistered_of(result.domains@))
        },
{
    if !unregistered_only {
        return result;
    }

    let CheckResult { timestamp, check_count: _, domains, summary } = result;
    let ResultSummary { total_checked, registered, unregistered, errors: _ } = summary;

    let ghost orig = domains@;
    let ghost n = orig.len() as int;

    let mut rest = domains;
    let mut filtered: Vec<DomainStatus> = Vec::new();
    while rest.len() > 0
        invariant
            n == orig.len(),
            rest@.len() <= n,
            rest@ == orig.subrange(n - rest@.len(), n),
            filtered@ == unregistered_of(orig.subrange(0, n - rest@.len())),
        decreases rest@.len(),
    {
        let ghost k = n - rest@.len();
        let status = rest.remove(0);
        proof {
            assert(status == orig[k]);
            assert(rest@ =~= orig.subrange(k + 1, n));
            assert(orig.subrange(0, k + 1).drop_last() =~= orig.subrange(0, k));
            assert(orig.subrange(0, k + 1).last() == orig[k]);
        }
        if !status.registered {
            filtered.push(status);
        }
    }
    proof {
        assert(orig.subrange(0, n) =~= orig);
    }

    let mut errors: usize = 0;
    let mut i: usize = 0;
    while i < filtered.len()
        invariant
            i <= filtered@.len(),
            errors == count_errors(filtered@.take(i as int)),
            errors <= i,
        decreases filtered@.len() - i,
    {
        proof {
            assert(filtered@.take(i as int + 1).drop_last() =~= filtered@.take(i as int));
            assert(filtered@.take(i as int + 1).last() == filtered@[i as int]);
        }
        if filtered[i].error.is_some() {
            errors = errors + 1;
        }
        i = i + 1;
    }
    proof {
        assert(filtered@.take(filtered@.len() as int) =~= filtered@);
    }

    CheckResult {
        timestamp,
        check_count: total_checked,
        domains: filtered,
        summary: ResultSummary { total_checked, registered, unregistered, errors },
    }
}

} // verus!
