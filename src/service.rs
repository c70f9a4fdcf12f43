//! One service's run: pre-cleanup summaries, deletion requests and the
//! outcome with its byte accounting.

use crate::engine::{plan_of, plan_retention, Rule, Selection};
use crate::pattern::{
    check_pattern, glob_is_match, glob_valid, kept_size, lemma_kept_size_bounded,
    lemma_total_size_prefix, match_mask, total_size, ConfigError, IndexRef,
};
use crate::size::{size_text, sizeof_fmt};
use vstd::prelude::*;

verus! {

/// A named bucket of the pre-cleanup summary.
#[derive(Clone, Debug)]
pub struct SummaryReport {
    pub pattern: String,
    pub name: String,
}

/// One service's configuration: its name, rules in order and summary buckets.
#[derive(Clone, Debug)]
pub struct Service {
    pub service: String,
    pub rules: Vec<Rule>,
    pub summary_reports: Vec<SummaryReport>,
}

/// The outcome for one index selected for deletion.
#[derive(Clone, Debug)]
pub struct ServiceResult {
    pub name: String,
    pub size: u64,
    pub success: bool,
}

/// Everything one service's run produced.
#[derive(Clone, Debug)]
pub struct ServiceResults {
    pub deletes: Vec<ServiceResult>,
    pub total: u64,
    pub total_remaining: u64,
    pub total_human_readable_msg: String,
    pub failures: u64,
    pub reports: Vec<(String, String)>,
    pub date_errors: Vec<String>,
}

/// The summary row text of one bucket: its size, formatted.
pub open spec fn report_size_text(idxs: Seq<IndexRef>, pattern: Seq<char>) -> Seq<char> {
    size_text(kept_size(idxs, match_mask(idxs, pattern)))
}

/// Whether every summary pattern compiles.
pub open spec fn reports_valid(specs: Seq<SummaryReport>) -> bool {
    forall|i: int| 0 <= i < specs.len() ==> glob_valid(#[trigger] specs[i].pattern@)
}

/// Whether every rule pattern compiles.
pub open spec fn rules_valid(rules: Seq<Rule>) -> bool {
    forall|k: int| 0 <= k < rules.len() ==> glob_valid(#[trigger] rules[k].index_pattern@)
}

/// One row per bucket, in order: its name and the formatted total size of
/// the indices it matches (`0B` where it matches none); an error naming the
/// first pattern that does not compile.
pub fn summarize(indices: &Vec<IndexRef>, summary_reports: &Vec<SummaryReport>) -> (r: Result<
    Vec<(String, String)>,
    ConfigError,
>)
    requires
        total_size(indices@) <= u64::MAX,
    ensures
        r is Ok <==> reports_valid(summary_reports@),
        r matches Err(ConfigError::InvalidPattern(p)) ==> exists|i: int|
            0 <= i < summary_reports@.len() && p@ == (#[trigger] summary_reports@[i]).pattern@,
        r matches Ok(rows) ==> rows@.len() == summary_reports@.len() && forall|i: int|
            0 <= i < rows@.len() ==> (#[trigger] rows@[i]).0@ == summary_reports@[i].name@
                && rows@[i].1@ == report_size_text(indices@, summary_reports@[i].pattern@),
{
    let mut rows: Vec<(String, String)> = Vec::new();
    let mut t: usize = 0;
    while t < summary_reports.len()
        invariant
            t <= summary_reports@.len(),
            total_size(indices@) <= u64::MAX,
            forall|i: int| 0 <= i < t ==> glob_valid(#[trigger] summary_reports@[i].pattern@),
            rows@.len() == t,
            forall|i: int|
                0 <= i < t ==> (#[trigger] rows@[i]).0@ == summary_reports@[i].name@ && rows@[i].1@
                    == report_size_text(indices@, summary_reports@[i].pattern@),
        decreases summary_reports.len() - t,
    {
        let spec_t = &summary_reports[t];
        match check_pattern(&spec_t.pattern) {
            Err(e) => {
                return Err(e);
            },
            Ok(()) => {},
        }
        let ghost mask = match_mask(indices@, spec_t.pattern@);
        let mut sum: u64 = 0;
        let mut i: usize = 0;
        while i < indices.len()
            invariant
                i <= indices@.len(),
                glob_valid(spec_t.pattern@),
                mask == match_mask(indices@, spec_t.pattern@),
                total_size(indices@) <= u64::MAX,
                sum == kept_size(indices@.take(i as int), mask),
            decreases indices.len() - i,
        {
            proof {
                assert(indices@.take(i + 1).drop_last() =~= indices@.take(i as int));
                lemma_kept_size_bounded(indices@.take(i + 1), mask);
                lemma_total_size_prefix(indices@, i + 1);
            }
            if glob_is_match(spec_t.pattern.as_str(), indices[i].index_name.as_str()) {
                sum = sum + indices[i].size;
            }
            i = i + 1;
        }
        assert(indices@.take(indices@.len() as int) =~= indices@);
        rows.push((spec_t.name.clone(), sizeof_fmt(sum)));
        t = t + 1;
    }
    Ok(rows)
}

/// Marks the positions that some selection holds.
pub open spec fn selection_mask(n: nat, sel: Seq<Selection>) -> Seq<bool> {
    Seq::new(n, |i: int| exists|j: int| 0 <= j < sel.len() && sel[j].position == i)
}

/// Whether the deletion of the `j`-th selection counts as done: always in a
/// dry run, else as the delete call reported.
pub open spec fn outcome_ok(dry_run: bool, outcomes: Seq<bool>, j: int) -> bool {
    dry_run || (j < outcomes.len() && outcomes[j])
}

/// The recorded outcomes for the selections, in order.
pub open spec fn deletes_of(
    idxs: Seq<IndexRef>,
    sel: Seq<Selection>,
    dry_run: bool,
    outcomes: Seq<bool>,
) -> Seq<ServiceResult> {
    Seq::new(
        sel.len(),
        |j: int|
            ServiceResult {
                name: idxs[sel[j].position as int].index_name,
                size: idxs[sel[j].position as int].size,
                success: outcome_ok(dry_run, outcomes, j),
            },
    )
}

/// Number of failed outcomes.
pub open spec fn count_failed(ds: Seq<ServiceResult>) -> nat
    decreases ds.len(),
{
    if ds.len() == 0 {
        0
    } else {
        count_failed(ds.drop_last()) + if ds.last().success { 0nat } else { 1nat }
    }
}

/// The closing line of a service's run.
pub open spec fn summary_message(service: Seq<char>, deleted: nat, remaining: nat) -> Seq<char> {
    "Cleanup finished for "@ + service + " service: "@ + size_text(deleted)
        + " data has been deleted. (Remaining data size: "@ + size_text(remaining) + ")"@
}

/// A dry run records every selection as done, and records the same indices,
/// sizes and totals as a real run with any delete outcomes.
pub proof fn lemma_dry_run_matches_real_run(
    idxs: Seq<IndexRef>,
    sel: Seq<Selection>,
    outcomes: Seq<bool>,
)
    ensures
        forall|j: int|
            0 <= j < sel.len() ==> (#[trigger] deletes_of(idxs, sel, true, outcomes)[j]).success,
        deletes_of(idxs, sel, true, outcomes).len() == deletes_of(idxs, sel, false, outcomes).len(),
        forall|j: int|
            0 <= j < sel.len() ==> (#[trigger] deletes_of(idxs, sel, true, outcomes)[j]).name
                == deletes_of(idxs, sel, false, outcomes)[j].name && deletes_of(
                idxs,
                sel,
                true,
                outcomes,
            )[j].size == deletes_of(idxs, sel, false, outcomes)[j].size,
        count_failed(deletes_of(idxs, sel, true, outcomes)) == 0,
{
    lemma_count_failed_all_ok(deletes_of(idxs, sel, true, outcomes));
}

proof fn lemma_count_failed_all_ok(ds: Seq<ServiceResult>)
    requires
        forall|j: int| 0 <= j < ds.len() ==> (#[trigger] ds[j]).success,
    ensures
        count_failed(ds) == 0,
    decreases ds.len(),
{
    if ds.len() > 0 {
        lemma_count_failed_all_ok(ds.drop_last());
    }
}

/// The names to delete, in order: none in a dry run, else the selected
/// indices' names.
pub fn deletion_requests(indices: &Vec<IndexRef>, rules: &Vec<Rule>, today: i32, dry_run: bool) -> (r:
    Result<Vec<String>, ConfigError>)
    ensures
        r is Ok <==> rules_valid(rules@),
        r matches Ok(names) ==> {
            let sel = plan_of(indices@, today as int, rules@).0;
            &&& dry_run ==> names@.len() == 0
            &&& !dry_run ==> names@.len() == sel.len() && forall|j: int|
                0 <= j < sel.len() ==> (#[trigger] names@[j])@ == indices@[sel[j].position as int].index_name@
        },
{
    let plan = match plan_retention(indices, rules, today) {
        Err(e) => {
            return Err(e);
        },
        Ok(p) => p,
    };
    let mut names: Vec<String> = Vec::new();
    if dry_run {
        return Ok(names);
    }
    let n_indices = indices.len();
    let n_rules = rules.len();
    proof {
        assert(n_indices == indices@.len() && n_rules == rules@.len());
        crate::engine::lemma_plan_first_rule_wins(indices@, today as int, rules@);
        assert forall|j: int| 0 <= j < plan.selected@.len() implies (#[trigger] plan.selected@[j]).position
            < indices@.len() by {
            assert(plan.selected@[j] == plan_of(indices@, today as int, rules@).0[j]);
        }
    }
    let mut j: usize = 0;
    while j < plan.selected.len()
        invariant
            j <= plan.selected@.len(),
            (plan.selected@, plan.date_errors@) == plan_of(indices@, today as int, rules@),
            forall|j: int|
                0 <= j < plan.selected@.len() ==> (#[trigger] plan.selected@[j]).position < indices@.len(),
            names@.len() == j,
            forall|j2: int|
                0 <= j2 < j ==> (#[trigger] names@[j2])@ == indices@[plan.selected@[j2].position as int].index_name@,
        decreases plan.selected.len() - j,
    {
        names.push(indices[plan.selected[j].position].index_name.clone());
        j = j + 1;
    }
    Ok(names)
}

fn selection_flags(n: usize, sel: &Vec<Selection>) -> (r: Vec<bool>)
    requires
        forall|j: int| 0 <= j < sel@.len() ==> (#[trigger] sel@[j]).position < n,
    ensures
        r@ == selection_mask(n as nat, sel@),
{
    let mut flags: Vec<bool> = Vec::new();
    let mut i: usize = 0;
    while i < n
        invariant
            i <= n,
            flags@ == Seq::new(i as nat, |p: int| false),
        decreases n - i,
    {
        flags.push(false);
        assert(flags@ =~= Seq::new((i + 1) as nat, |p: int| false));
        i = i + 1;
    }
    let mut t: usize = 0;
    while t < sel.len()
        invariant
            t <= sel@.len(),
            forall|j: int| 0 <= j < sel@.len() ==> (#[trigger] sel@[j]).position < n,
            flags@ == Seq::new(
                n as nat,
                |p: int| exists|j: int| 0 <= j < t && sel@[j].position == p,
            ),
        decreases sel.len() - t,
    {
        let pos = sel[t].position;
        flags.set(pos, true);
        assert forall|p: int| 0 <= p < n implies flags@[p] == exists|j: int|
            0 <= j < t + 1 && sel@[j].position == p by {
            if p == pos as int {
                assert(sel@[t as int].position == p);
            }
        }
        assert(flags@ =~= Seq::new(
            n as nat,
            |p: int| exists|j: int| 0 <= j < t + 1 && sel@[j].position == p,
        ));
        t = t + 1;
    }
    assert(flags@ =~= selection_mask(n as nat, sel@));
    flags
}

/// Runs one service: the pre-cleanup summary rows, then the rules'
/// selections with their delete outcomes, the byte totals and the closing
/// line. `outcomes[j]` is what the delete call of the `j`-th selection
/// reported; a dry run records every selection as done.
pub fn cleanup_service(
    name: &String,
    indices: &Vec<IndexRef>,
    rules: &Vec<Rule>,
    summary_reports: &Vec<SummaryReport>,
    today: i32,
    dry_run: bool,
    outcomes: &Vec<bool>,
) -> (r: Result<ServiceResults, ConfigError>)
    requires
        total_size(indices@) <= u64::MAX,
    ensures
        r is Ok <==> reports_valid(summary_reports@) && rules_valid(rules@),
        r matches Err(ConfigError::InvalidPattern(p)) ==> (exists|i: int|
            0 <= i < summary_reports@.len() && p@ == (#[trigger] summary_reports@[i]).pattern@) || (exists|k: int|
            0 <= k < rules@.len() && p@ == (#[trigger] rules@[k]).index_pattern@),
        r matches Ok(res) ==> {
            let (sel, errs) = plan_of(indices@, today as int, rules@);
            &&& res.deletes@ == deletes_of(indices@, sel, dry_run, outcomes@)
            &&& res.total == kept_size(indices@, selection_mask(indices@.len(), sel))
            &&& res.total + res.total_remaining == total_size(indices@)
            &&& res.failures == count_failed(res.deletes@)
            &&& res.total_human_readable_msg@ == summary_message(
                name@,
                res.total as nat,
                res.total_remaining as nat,
            )
            &&& res.reports@.len() == summary_reports@.len()
            &&& forall|i: int|
                0 <= i < res.reports@.len() ==> (#[trigger] res.reports@[i]).0@ == summary_reports@[i].name@
                    && res.reports@[i].1@ == report_size_text(indices@, summary_reports@[i].pattern@)
            &&& res.date_errors@.len() == errs.len()
            &&& forall|j: int|
                0 <= j < errs.len() ==> (#[trigger] res.date_errors@[j])@ == indices@[errs[j] as int].index_name@
        },
{
    let reports = match summarize(indices, summary_reports) {
        Err(e) => {
            return Err(e);
        },
        Ok(rows) => rows,
    };
    let plan = match plan_retention(indices, rules, today) {
        Err(e) => {
            return Err(e);
        },
        Ok(p) => p,
    };
    let ghost idxs = indices@;
    let ghost sel = plan.selected@;
    let n_indices = indices.len();
    let n_rules = rules.len();
    proof {
        assert(n_indices == indices@.len() && n_rules == rules@.len());
        crate::engine::lemma_plan_in_range(idxs, today as int, rules@);
        assert forall|j: int| 0 <= j < sel.len() implies (#[trigger] sel[j]).position < idxs.len() by {
            assert(sel[j] == plan_of(idxs, today as int, rules@).0[j]);
        }
        assert forall|j: int| 0 <= j < plan.date_errors@.len() implies #[trigger] plan.date_errors@[j]
            < idxs.len() by {
            assert(plan.date_errors@[j] == plan_of(idxs, today as int, rules@).1[j]);
        }
    }
    let mut deletes: Vec<ServiceResult> = Vec::new();
    let mut failures: u64 = 0;
    let mut j: usize = 0;
    while j < plan.selected.len()
        invariant
            j <= sel.len(),
            sel == plan.selected@,
            idxs == indices@,
            forall|j: int| 0 <= j < sel.len() ==> (#[trigger] sel[j]).position < idxs.len(),
            deletes@ == deletes_of(idxs, sel, dry_run, outcomes@).take(j as int),
            failures == count_failed(deletes@),
            failures <= j,
        decreases plan.selected.len() - j,
    {
        let s = plan.selected[j];
        let ok = dry_run || (j < outcomes.len() && outcomes[j]);
        let ghost prev = deletes@;
        deletes.push(
            ServiceResult { name: indices[s.position].index_name.clone(), size: indices[s.position].size, success: ok },
        );
        assert(deletes@.drop_last() =~= prev);
        if !ok {
            failures = failures + 1;
        }
        assert(deletes@ =~= deletes_of(idxs, sel, dry_run, outcomes@).take(j + 1));
        j = j + 1;
    }
    assert(deletes@ =~= deletes_of(idxs, sel, dry_run, outcomes@));
    let flags = selection_flags(indices.len(), &plan.selected);
    let ghost keep = flags@;
    let ghost drop = Seq::new(idxs.len(), |p: int| !keep[p]);
    let mut total: u64 = 0;
    let mut remaining: u64 = 0;
    let mut i: usize = 0;
    while i < indices.len()
        invariant
            i <= idxs.len(),
            idxs == indices@,
            keep == flags@,
            keep.len() == idxs.len(),
            drop == Seq::new(idxs.len(), |p: int| !keep[p]),
            total_size(idxs) <= u64::MAX,
            total == kept_size(idxs.take(i as int), keep),
            remaining == kept_size(idxs.take(i as int), drop),
            total + remaining == total_size(idxs.take(i as int)),
        decreases indices.len() - i,
    {
        proof {
            assert(idxs.take(i + 1).drop_last() =~= idxs.take(i as int));
            lemma_total_size_prefix(idxs, i + 1);
        }
        if flags[i] {
            total = total + indices[i].size;
        } else {
            remaining = remaining + indices[i].size;
        }
        i = i + 1;
    }
    assert(idxs.take(idxs.len() as int) =~= idxs);
    let mut msg = String::from_str("Cleanup finished for ");
    msg.append(name.as_str());
    msg.append(" service: ");
    msg.append(sizeof_fmt(total).as_str());
    msg.append(" data has been deleted. (Remaining data size: ");
    msg.append(sizeof_fmt(remaining).as_str());
    msg.append(")");
    let mut date_errors: Vec<String> = Vec::new();
    let mut e: usize = 0;
    while e < plan.date_errors.len()
        invariant
            e <= plan.date_errors@.len(),
            idxs == indices@,
            forall|j: int| 0 <= j < plan.date_errors@.len() ==> #[trigger] plan.date_errors@[j] < idxs.len(),
            date_errors@.len() == e,
            forall|j: int|
                0 <= j < e ==> (#[trigger] date_errors@[j])@ == idxs[plan.date_errors@[j] as int].index_name@,
        decreases plan.date_errors.len() - e,
    {
        date_errors.push(indices[plan.date_errors[e]].index_name.clone());
        e = e + 1;
    }
    Ok(
        ServiceResults {
            deletes,
            total,
            total_remaining: remaining,
            total_human_readable_msg: msg,
            failures,
            reports,
            date_errors,
        },
    )
}

} // verus!
