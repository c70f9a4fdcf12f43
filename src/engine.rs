//! Rule application: which indices a service's rules select for deletion.

use crate::age::{age_of, default_date_pattern, index_age};
use crate::pattern::{check_pattern, glob_is_match, glob_matches, glob_valid, ConfigError, IndexRef};
use vstd::prelude::*;

verus! {

/// One retention rule: indices matching the pattern whose date is more than
/// `age_threshold` days old are deleted.
#[derive(Clone, Debug)]
pub struct Rule {
    pub index_pattern: String,
    pub age_threshold: i64,
    pub date_pattern: Option<String>,
}

/// An index selected for deletion: its position in the scanned list and the
/// position of the rule that selected it.
#[derive(Clone, Copy, Debug, PartialEq, Eq, Structural)]
pub struct Selection {
    pub position: usize,
    pub rule: usize,
}

/// What the rules decided: the selections in order, and the positions of
/// the indices whose date could not be read, once per rule that reached them.
#[derive(Clone, Debug)]
pub struct Plan {
    pub selected: Vec<Selection>,
    pub date_errors: Vec<usize>,
}

/// The date format of a rule.
pub open spec fn rule_date_pattern(r: Rule) -> Seq<char> {
    match r.date_pattern {
        Some(p) => p@,
        None => default_date_pattern(),
    }
}

/// Names starting with `.` belong to the system and are never deleted.
pub open spec fn protected_name(n: Seq<char>) -> bool {
    n.len() > 0 && n[0] == '.'
}

/// Whether one of the selections already holds an index of that name.
pub open spec fn claimed(idxs: Seq<IndexRef>, sel: Seq<Selection>, n: Seq<char>) -> bool {
    exists|j: int| 0 <= j < sel.len() && #[trigger] idxs[sel[j].position as int].index_name@ == n
}

/// Whether the rule, taken alone, would delete the index.
pub open spec fn eligible(r: Rule, idx: IndexRef, today: int) -> bool {
    &&& glob_matches(r.index_pattern@, idx.index_name@)
    &&& !protected_name(idx.index_name@)
    &&& age_of(idx.index_name@, rule_date_pattern(r), today) matches Some(a) && a > r.age_threshold
}

/// Rule `k` looks at the index at position `i`.
pub open spec fn step(
    idxs: Seq<IndexRef>,
    today: int,
    rules: Seq<Rule>,
    k: int,
    st: (Seq<Selection>, Seq<usize>),
    i: int,
) -> (Seq<Selection>, Seq<usize>) {
    let r = rules[k];
    let n = idxs[i].index_name@;
    if glob_matches(r.index_pattern@, n) && !claimed(idxs, st.0, n) && !protected_name(n) {
        match age_of(n, rule_date_pattern(r), today) {
            None => (st.0, st.1.push(i as usize)),
            Some(a) => if a > r.age_threshold {
                (st.0.push(Selection { position: i as usize, rule: k as usize }), st.1)
            } else {
                st
            },
        }
    } else {
        st
    }
}

/// Rule `k` looks at the first `m` indices, in order.
pub open spec fn apply_rule(
    idxs: Seq<IndexRef>,
    today: int,
    rules: Seq<Rule>,
    k: int,
    st: (Seq<Selection>, Seq<usize>),
    m: int,
) -> (Seq<Selection>, Seq<usize>)
    decreases m,
{
    if m <= 0 {
        st
    } else {
        step(idxs, today, rules, k, apply_rule(idxs, today, rules, k, st, m - 1), m - 1)
    }
}

/// The first `k` rules, in order, each over all indices.
pub open spec fn apply_rules(idxs: Seq<IndexRef>, today: int, rules: Seq<Rule>, k: int) -> (
    Seq<Selection>,
    Seq<usize>,
)
    decreases k,
{
    if k <= 0 {
        (seq![], seq![])
    } else {
        apply_rule(
            idxs,
            today,
            rules,
            k - 1,
            apply_rules(idxs, today, rules, k - 1),
            idxs.len() as int,
        )
    }
}

/// The decision of all rules over all indices.
pub open spec fn plan_of(idxs: Seq<IndexRef>, today: int, rules: Seq<Rule>) -> (
    Seq<Selection>,
    Seq<usize>,
) {
    apply_rules(idxs, today, rules, rules.len() as int)
}

/// What holds after the rules before `k` have run, and rule `k` over the
/// first `m` indices.
pub open spec fn plan_inv(
    idxs: Seq<IndexRef>,
    today: int,
    rules: Seq<Rule>,
    k: int,
    m: int,
    st: (Seq<Selection>, Seq<usize>),
) -> bool {
    let sel = st.0;
    &&& forall|j: int| 0 <= j < sel.len() ==> (#[trigger] sel[j]).position < idxs.len() && sel[j].rule <= k
        && sel[j].rule < rules.len()
    &&& forall|j: int| 0 <= j < st.1.len() ==> #[trigger] st.1[j] < idxs.len()
    &&& forall|j1: int, j2: int|
        0 <= j1 < j2 < sel.len() ==> idxs[(#[trigger] sel[j1]).position as int].index_name@
            != idxs[(#[trigger] sel[j2]).position as int].index_name@
    &&& forall|j: int|
        0 <= j < sel.len() ==> eligible(rules[(#[trigger] sel[j]).rule as int], idxs[sel[j].position as int], today)
    &&& forall|j: int, k2: int|
        0 <= j < sel.len() && 0 <= k2 < (#[trigger] sel[j]).rule ==> !eligible(
            #[trigger] rules[k2],
            idxs[sel[j].position as int],
            today,
        )
    &&& forall|k2: int, i: int|
        0 <= i < idxs.len() && (0 <= k2 < k || (k2 == k && i < m)) && eligible(
            #[trigger] rules[k2],
            #[trigger] idxs[i],
            today,
        ) ==> claimed(idxs, sel, idxs[i].index_name@)
}

proof fn lemma_step_inv(
    idxs: Seq<IndexRef>,
    today: int,
    rules: Seq<Rule>,
    k: int,
    m: int,
    st: (Seq<Selection>, Seq<usize>),
)
    requires
        0 <= k < rules.len(),
        0 <= m < idxs.len(),
        idxs.len() <= usize::MAX,
        rules.len() <= usize::MAX,
        plan_inv(idxs, today, rules, k, m, st),
    ensures
        plan_inv(idxs, today, rules, k, m + 1, step(idxs, today, rules, k, st, m)),
        st.0.len() <= step(idxs, today, rules, k, st, m).0.len(),
        st.0 == step(idxs, today, rules, k, st, m).0.take(st.0.len() as int),
{
    let st2 = step(idxs, today, rules, k, st, m);
    let sel = st.0;
    let sel2 = st2.0;
    assert(sel2.take(sel.len() as int) =~= sel);
    assert forall|n: Seq<char>| claimed(idxs, sel, n) implies claimed(idxs, sel2, n) by {
        let j = choose|j: int| 0 <= j < sel.len() && #[trigger] idxs[sel[j].position as int].index_name@ == n;
        assert(sel2[j] == sel[j]);
    }
    if sel2.len() > sel.len() {
        let last = Selection { position: m as usize, rule: k as usize };
        assert(sel2 == sel.push(last));
        assert(claimed(idxs, sel2, idxs[m].index_name@)) by {
            assert(idxs[sel2[sel.len() as int].position as int].index_name@ == idxs[m].index_name@);
        }
        assert forall|j: int, k2: int|
            0 <= j < sel2.len() && 0 <= k2 < (#[trigger] sel2[j]).rule implies !eligible(
                #[trigger] rules[k2],
                idxs[sel2[j].position as int],
                today,
            ) by {
            if j == sel.len() {
                if eligible(rules[k2], idxs[m], today) {
                    assert(claimed(idxs, sel, idxs[m].index_name@));
                }
            } else {
                assert(sel2[j] == sel[j]);
            }
        }
        assert forall|j1: int, j2: int|
            0 <= j1 < j2 < sel2.len() implies idxs[(#[trigger] sel2[j1]).position as int].index_name@
                != idxs[(#[trigger] sel2[j2]).position as int].index_name@ by {
            if j2 == sel.len() {
                assert(sel2[j1] == sel[j1]);
                if idxs[sel2[j1].position as int].index_name@ == idxs[m].index_name@ {
                    assert(claimed(idxs, sel, idxs[m].index_name@));
                }
            } else {
                assert(sel2[j1] == sel[j1]);
                assert(sel2[j2] == sel[j2]);
            }
        }
    }
}

proof fn lemma_apply_rule_inv(
    idxs: Seq<IndexRef>,
    today: int,
    rules: Seq<Rule>,
    k: int,
    st: (Seq<Selection>, Seq<usize>),
    m: int,
)
    requires
        0 <= k < rules.len(),
        0 <= m <= idxs.len(),
        idxs.len() <= usize::MAX,
        rules.len() <= usize::MAX,
        plan_inv(idxs, today, rules, k, 0, st),
    ensures
        plan_inv(idxs, today, rules, k, m, apply_rule(idxs, today, rules, k, st, m)),
    decreases m,
{
    if m > 0 {
        lemma_apply_rule_inv(idxs, today, rules, k, st, m - 1);
        lemma_step_inv(idxs, today, rules, k, m - 1, apply_rule(idxs, today, rules, k, st, m - 1));
    }
}

proof fn lemma_apply_rules_inv(idxs: Seq<IndexRef>, today: int, rules: Seq<Rule>, k: int)
    requires
        0 <= k <= rules.len(),
        idxs.len() <= usize::MAX,
        rules.len() <= usize::MAX,
    ensures
        plan_inv(idxs, today, rules, k, 0, apply_rules(idxs, today, rules, k)),
    decreases k,
{
    if k > 0 {
        lemma_apply_rules_inv(idxs, today, rules, k - 1);
        let st = apply_rules(idxs, today, rules, k - 1);
        lemma_apply_rule_inv(idxs, today, rules, k - 1, st, idxs.len() as int);
    }
}

/// No index name is selected twice, and each selection comes from the
/// earliest rule that would delete it: every earlier rule, taken alone,
/// would have kept it.
pub proof fn lemma_plan_first_rule_wins(idxs: Seq<IndexRef>, today: int, rules: Seq<Rule>)
    requires
        idxs.len() <= usize::MAX,
        rules.len() <= usize::MAX,
    ensures
        forall|j1: int, j2: int|
            0 <= j1 < j2 < plan_of(idxs, today, rules).0.len() ==> idxs[(#[trigger] plan_of(
                idxs,
                today,
                rules,
            ).0[j1]).position as int].index_name@ != idxs[(#[trigger] plan_of(
                idxs,
                today,
                rules,
            ).0[j2]).position as int].index_name@,
        forall|j: int|
            0 <= j < plan_of(idxs, today, rules).0.len() ==> {
                let s = #[trigger] plan_of(idxs, today, rules).0[j];
                &&& s.position < idxs.len()
                &&& s.rule < rules.len()
                &&& eligible(rules[s.rule as int], idxs[s.position as int], today)
                &&& forall|k2: int| 0 <= k2 < s.rule ==> !eligible(#[trigger] rules[k2], idxs[s.position as int], today)
            },
{
    lemma_apply_rules_inv(idxs, today, rules, rules.len() as int);
}

/// No index whose name starts with `.` is ever selected.
pub proof fn lemma_plan_spares_protected(idxs: Seq<IndexRef>, today: int, rules: Seq<Rule>)
    requires
        idxs.len() <= usize::MAX,
        rules.len() <= usize::MAX,
    ensures
        forall|j: int|
            0 <= j < plan_of(idxs, today, rules).0.len() ==> !protected_name(
                idxs[(#[trigger] plan_of(idxs, today, rules).0[j]).position as int].index_name@,
            ),
{
    lemma_apply_rules_inv(idxs, today, rules, rules.len() as int);
}

/// Every position that the decision holds is a position of the scanned list.
pub proof fn lemma_plan_in_range(idxs: Seq<IndexRef>, today: int, rules: Seq<Rule>)
    requires
        idxs.len() <= usize::MAX,
        rules.len() <= usize::MAX,
    ensures
        forall|j: int|
            0 <= j < plan_of(idxs, today, rules).0.len() ==> (#[trigger] plan_of(idxs, today, rules).0[j]).position
                < idxs.len(),
        forall|j: int|
            0 <= j < plan_of(idxs, today, rules).1.len() ==> #[trigger] plan_of(idxs, today, rules).1[j]
                < idxs.len(),
{
    lemma_apply_rules_inv(idxs, today, rules, rules.len() as int);
}

fn is_protected(name: &String) -> (r: bool)
    ensures
        r == protected_name(name@),
{
    let s = name.as_str();
    s.unicode_len() > 0 && s.get_char(0) == '.'
}

fn is_claimed(indices: &Vec<IndexRef>, sel: &Vec<Selection>, name: &String) -> (r: bool)
    requires
        forall|j: int| 0 <= j < sel@.len() ==> (#[trigger] sel@[j]).position < indices@.len(),
    ensures
        r == claimed(indices@, sel@, name@),
{
    let mut j: usize = 0;
    while j < sel.len()
        invariant
            j <= sel@.len(),
            forall|j: int| 0 <= j < sel@.len() ==> (#[trigger] sel@[j]).position < indices@.len(),
            forall|j2: int| 0 <= j2 < j ==> #[trigger] indices@[sel@[j2].position as int].index_name@ != name@,
        decreases sel.len() - j,
    {
        if indices[sel[j].position].index_name == *name {
            return true;
        }
        j = j + 1;
    }
    false
}

/// Checks every rule's pattern, naming the first that does not compile.
pub fn check_rules(rules: &Vec<Rule>) -> (r: Result<(), ConfigError>)
    ensures
        r is Ok <==> forall|k: int| 0 <= k < rules@.len() ==> glob_valid(#[trigger] rules@[k].index_pattern@),
        r matches Err(ConfigError::InvalidPattern(p)) ==> exists|k: int|
            0 <= k < rules@.len() && p@ == (#[trigger] rules@[k]).index_pattern@,
{
    let mut k: usize = 0;
    while k < rules.len()
        invariant
            k <= rules@.len(),
            forall|k2: int| 0 <= k2 < k ==> glob_valid(#[trigger] rules@[k2].index_pattern@),
        decreases rules.len() - k,
    {
        match check_pattern(&rules[k].index_pattern) {
            Err(e) => {
                return Err(e);
            },
            Ok(()) => {},
        }
        k = k + 1;
    }
    Ok(())
}

/// Applies the rules in order to the scanned indices, `today` being the
/// day number of the reference date.
pub fn plan_retention(indices: &Vec<IndexRef>, rules: &Vec<Rule>, today: i32) -> (r: Result<
    Plan,
    ConfigError,
>)
    ensures
        r is Ok <==> forall|k: int| 0 <= k < rules@.len() ==> glob_valid(#[trigger] rules@[k].index_pattern@),
        r matches Err(ConfigError::InvalidPattern(p)) ==> exists|k: int|
            0 <= k < rules@.len() && p@ == (#[trigger] rules@[k]).index_pattern@,
        r matches Ok(plan) ==> (plan.selected@, plan.date_errors@) == plan_of(
            indices@,
            today as int,
            rules@,
        ),
{
    match check_rules(rules) {
        Err(e) => {
            return Err(e);
        },
        Ok(()) => {},
    }
    let ghost idxs = indices@;
    let n_rules = rules.len();
    let n_indices = indices.len();
    let mut selected: Vec<Selection> = Vec::new();
    let mut date_errors: Vec<usize> = Vec::new();
    let mut k: usize = 0;
    while k < rules.len()
        invariant
            k <= rules@.len(),
            idxs == indices@,
            n_rules == rules@.len(),
            n_indices == idxs.len(),
            forall|k2: int| 0 <= k2 < rules@.len() ==> glob_valid(#[trigger] rules@[k2].index_pattern@),
            (selected@, date_errors@) == apply_rules(idxs, today as int, rules@, k as int),
        decreases rules.len() - k,
    {
        let rule = &rules[k];
        let date_pattern: &str = match &rule.date_pattern {
            Some(p) => p.as_str(),
            None => "%Y.%m.%d",
        };
        assert(date_pattern@ == rule_date_pattern(rules@[k as int]));
        let ghost start = (selected@, date_errors@);
        let mut i: usize = 0;
        while i < indices.len()
            invariant
                k < rules@.len(),
                i <= idxs.len(),
                n_rules == rules@.len(),
                n_indices == idxs.len(),
                idxs == indices@,
                *rule == rules@[k as int],
                date_pattern@ == rule_date_pattern(*rule),
                glob_valid(rule.index_pattern@),
                start == apply_rules(idxs, today as int, rules@, k as int),
                (selected@, date_errors@) == apply_rule(idxs, today as int, rules@, k as int, start, i as int),
            decreases indices.len() - i,
        {
            proof {
                lemma_apply_rules_inv(idxs, today as int, rules@, k as int);
                lemma_apply_rule_inv(idxs, today as int, rules@, k as int, start, i as int);
            }
            let idx = &indices[i];
            if glob_is_match(rule.index_pattern.as_str(), idx.index_name.as_str())
                && !is_claimed(indices, &selected, &idx.index_name)
                && !is_protected(&idx.index_name) {
                match index_age(idx.index_name.as_str(), date_pattern, today) {
                    None => {
                        date_errors.push(i);
                    },
                    Some(a) => {
                        if a > rule.age_threshold {
                            selected.push(Selection { position: i, rule: k });
                        }
                    },
                }
            }
            i = i + 1;
        }
        k = k + 1;
    }
    Ok(Plan { selected, date_errors })
}

} // verus!
