//! The budget side of choosing which paths to activate: whether a selection
//! of paths stays within a cost budget, the greedy fill used when the
//! simulated-bifurcation (SBM) solution does not, and the rule that picks
//! between the two. The SBM solver and the value densities that order the
//! greedy fill are floating point and stay with the caller.

use vstd::prelude::*;

use crate::usb_protection::views_of;

verus! {

/// The total cost of the selected paths among the first `n`.
pub open spec fn selected_cost(selection: Seq<bool>, costs: Seq<u32>, n: int) -> int
    decreases n,
{
    if n <= 0 {
        0
    } else {
        selected_cost(selection, costs, n - 1) + if selection[n - 1] {
            costs[n - 1] as int
        } else {
            0
        }
    }
}

pub open spec fn pair_len(selection: Seq<bool>, costs: Seq<u32>) -> int {
    if selection.len() < costs.len() {
        selection.len() as int
    } else {
        costs.len() as int
    }
}

/// Whether the selected paths fit the budget (selection and costs taken
/// pairwise, as far as both go).
pub open spec fn spec_respects_budget(selection: Seq<bool>, costs: Seq<u32>, budget: u32) -> bool {
    selected_cost(selection, costs, pair_len(selection, costs)) <= budget
}

proof fn lemma_selected_cost_monotone(selection: Seq<bool>, costs: Seq<u32>, i: int, j: int)
    requires
        0 <= i <= j,
        j <= selection.len(),
        j <= costs.len(),
    ensures
        selected_cost(selection, costs, i) <= selected_cost(selection, costs, j),
    decreases j - i,
{
    if i < j {
        lemma_selected_cost_monotone(selection, costs, i, j - 1);
    }
}

/// Whether the total cost of the selected paths is within `budget`.
pub fn respects_budget(selection: &[bool], costs: &[u32], budget: u32) -> (r: bool)
    ensures
        r == spec_respects_budget(selection@, costs@, budget),
{
    let n = if selection.len() < costs.len() {
        selection.len()
    } else {
        costs.len()
    };
    let mut total: u64 = 0;
    let mut i: usize = 0;
    while i < n
        invariant
            n as int == pair_len(selection@, costs@),
            n <= selection@.len(),
            n <= costs@.len(),
            i <= n,
            total == selected_cost(selection@, costs@, i as int),
            total <= budget,
        decreases n - i,
    {
        if selection[i] {
            total = total + costs[i] as u64;
        }
        if total > budget as u64 {
            proof {
                lemma_selected_cost_monotone(selection@, costs@, i + 1, n as int);
            }
            return false;
        }
        i = i + 1;
    }
    true
}

/// The selection and the used budget after the first `k` steps of the
/// greedy fill: in the given order, take a path when it still fits.
pub open spec fn greedy_state(order: Seq<usize>, costs: Seq<u32>, budget: u32, k: int) -> (Seq<
    bool,
>, int)
    decreases k,
{
    if k <= 0 {
        (Seq::new(costs.len(), |i: int| false), 0)
    } else {
        let (sel, used) = greedy_state(order, costs, budget, k - 1);
        let i = order[k - 1] as int;
        if used + costs[i] <= budget {
            (sel.update(i, true), used + costs[i])
        } else {
            (sel, used)
        }
    }
}

proof fn lemma_greedy_within_budget(order: Seq<usize>, costs: Seq<u32>, budget: u32, k: int)
    requires
        0 <= k <= order.len(),
        forall|j: int| 0 <= j < order.len() ==> (#[trigger] order[j]) < costs.len(),
    ensures
        greedy_state(order, costs, budget, k).0.len() == costs.len(),
        0 <= greedy_state(order, costs, budget, k).1 <= budget,
        selected_cost(greedy_state(order, costs, budget, k).0, costs, costs.len() as int)
            <= greedy_state(order, costs, budget, k).1,
    decreases k,
{
    if k > 0 {
        lemma_greedy_within_budget(order, costs, budget, k - 1);
        let (sel, used) = greedy_state(order, costs, budget, k - 1);
        let i = order[k - 1] as int;
        if used + costs[i] <= budget {
            lemma_selected_cost_update(sel, costs, i, costs.len() as int);
        }
    } else {
        lemma_selected_cost_none(costs, costs.len() as int);
    }
}

proof fn lemma_selected_cost_none(costs: Seq<u32>, n: int)
    requires
        0 <= n <= costs.len(),
    ensures
        selected_cost(Seq::new(costs.len(), |i: int| false), costs, n) == 0,
    decreases n,
{
    if n > 0 {
        lemma_selected_cost_none(costs, n - 1);
    }
}

proof fn lemma_selected_cost_update(sel: Seq<bool>, costs: Seq<u32>, i: int, n: int)
    requires
        sel.len() == costs.len(),
        0 <= i < costs.len(),
        0 <= n <= costs.len(),
    ensures
        selected_cost(sel.update(i, true), costs, n) <= selected_cost(sel, costs, n) + if i < n {
            costs[i] as int
        } else {
            0
        },
    decreases n,
{
    if n > 0 {
        lemma_selected_cost_update(sel, costs, i, n - 1);
    }
}

/// The greedy fill: walks `order`, taking each path whose cost still fits
/// the budget.
pub fn greedy_fill(order: &[usize], costs: &[u32], budget: u32) -> (selection: Vec<bool>)
    requires
        forall|j: int| 0 <= j < order@.len() ==> (#[trigger] order@[j]) < costs@.len(),
    ensures
        selection@ == greedy_state(order@, costs@, budget, order@.len() as int).0,
        spec_respects_budget(selection@, costs@, budget),
{
    let n = costs.len();
    let mut selection: Vec<bool> = Vec::new();
    let mut j: usize = 0;
    while j < n
        invariant
            n == costs@.len(),
            j <= n,
            selection@ =~= Seq::new(j as nat, |i: int| false),
        decreases n - j,
    {
        selection.push(false);
        j = j + 1;
    }
    let m = order.len();
    let mut used: u32 = 0;
    let mut k: usize = 0;
    while k < m
        invariant
            m == order@.len(),
            n == costs@.len(),
            k <= m,
            forall|j: int| 0 <= j < order@.len() ==> (#[trigger] order@[j]) < costs@.len(),
            (selection@, used as int) == greedy_state(order@, costs@, budget, k as int),
        decreases m - k,
    {
        proof {
            lemma_greedy_within_budget(order@, costs@, budget, k as int);
        }
        let i = order[k];
        if (used as u64) + (costs[i] as u64) <= budget as u64 {
            selection.set(i, true);
            used = used + costs[i];
        }
        k = k + 1;
    }
    proof {
        lemma_greedy_within_budget(order@, costs@, budget, m as int);
    }
    selection
}

/// The selection to use: the SBM solution when there is one and it respects
/// the budget (reported with `true`), otherwise the greedy fill in
/// `fallback_order` (reported with `false`). Either way the budget is
/// respected.
pub fn select_within_budget(
    sbm_selection: Option<Vec<bool>>,
    fallback_order: &[usize],
    costs: &[u32],
    budget: u32,
) -> (r: (Vec<bool>, bool))
    requires
        forall|j: int| 0 <= j < fallback_order@.len() ==> (#[trigger] fallback_order@[j]) < costs@.len(),
    ensures
        r.1 == (sbm_selection matches Some(s) && spec_respects_budget(s@, costs@, budget)),
        r.1 ==> (sbm_selection matches Some(s) && r.0@ == s@),
        !r.1 ==> r.0@ == greedy_state(fallback_order@, costs@, budget, fallback_order@.len() as int).0,
        spec_respects_budget(r.0@, costs@, budget),
{
    match sbm_selection {
        Some(s) => {
            if respects_budget(s.as_slice(), costs, budget) {
                return (s, true);
            }
        },
        None => {},
    }
    (greedy_fill(fallback_order, costs, budget), false)
}

/// The names among the first `n` whose selection flag is `flag`, in order.
pub open spec fn names_with_flag(names: Seq<Seq<char>>, selection: Seq<bool>, flag: bool, n: int) -> Seq<
    Seq<char>,
>
    decreases n,
{
    if n <= 0 {
        Seq::empty()
    } else if selection[n - 1] == flag {
        names_with_flag(names, selection, flag, n - 1).push(names[n - 1])
    } else {
        names_with_flag(names, selection, flag, n - 1)
    }
}

/// Splits the paths by a selection: the names to activate (selected), the
/// names to deactivate (the rest), each in the given order, and the total
/// cost of the selected paths.
pub fn split_selection(names: &Vec<String>, selection: &[bool], costs: &[u32]) -> (r: (
    Vec<String>,
    Vec<String>,
    u32,
))
    requires
        names@.len() == selection@.len(),
        selection@.len() == costs@.len(),
        selected_cost(selection@, costs@, costs@.len() as int) <= u32::MAX,
    ensures
        views_of(r.0@) == names_with_flag(views_of(names@), selection@, true, names@.len() as int),
        views_of(r.1@) == names_with_flag(views_of(names@), selection@, false, names@.len() as int),
        r.2 == selected_cost(selection@, costs@, costs@.len() as int),
{
    let n = names.len();
    let ghost nv = views_of(names@);
    let mut activate: Vec<String> = Vec::new();
    let mut deactivate: Vec<String> = Vec::new();
    let mut total: u32 = 0;
    let mut i: usize = 0;
    while i < n
        invariant
            n == names@.len(),
            n == selection@.len(),
            n == costs@.len(),
            nv == views_of(names@),
            i <= n,
            selected_cost(selection@, costs@, n as int) <= u32::MAX,
            views_of(activate@) == names_with_flag(nv, selection@, true, i as int),
            views_of(deactivate@) == names_with_flag(nv, selection@, false, i as int),
            total == selected_cost(selection@, costs@, i as int),
        decreases n - i,
    {
        proof {
            lemma_selected_cost_monotone(selection@, costs@, i + 1, n as int);
        }
        assert(nv[i as int] == names@[i as int]@);
        if selection[i] {
            let ghost before = views_of(activate@);
            activate.push(names[i].clone());
            assert(views_of(activate@) =~= before.push(nv[i as int]));
            total = total + costs[i];
        } else {
            let ghost before = views_of(deactivate@);
            deactivate.push(names[i].clone());
            assert(views_of(deactivate@) =~= before.push(nv[i as int]));
        }
        i = i + 1;
    }
    (activate, deactivate, total)
}

/// Which paths to activate, and why.
pub struct ActivationPlan {
    /// The selection used, one flag per path.
    pub selection: Vec<bool>,
    pub activate: Vec<String>,
    pub deactivate: Vec<String>,
    /// The total cost of the activated paths.
    pub total_cost: u32,
    /// Whether the SBM selection was used as it was (`false`: the greedy
    /// fill).
    pub used_sbm_solution: bool,
}

/// The non-numeric part of choosing the paths to activate: keeps the SBM
/// selection when it respects the budget, otherwise takes the greedy fill
/// in `fallback_order`, and splits the paths accordingly.
pub fn plan_path_activation(
    names: &Vec<String>,
    sbm_selection: Option<Vec<bool>>,
    fallback_order: &[usize],
    costs: &[u32],
    budget: u32,
) -> (r: ActivationPlan)
    requires
        names@.len() == costs@.len(),
        sbm_selection matches Some(s) ==> s@.len() == costs@.len(),
        forall|j: int| 0 <= j < fallback_order@.len() ==> (#[trigger] fallback_order@[j]) < costs@.len(),
    ensures
        r.used_sbm_solution == (sbm_selection matches Some(s) && spec_respects_budget(
            s@,
            costs@,
            budget,
        )),
        r.used_sbm_solution ==> (sbm_selection matches Some(s) && r.selection@ == s@),
        !r.used_sbm_solution ==> r.selection@ == greedy_state(
            fallback_order@,
            costs@,
            budget,
            fallback_order@.len() as int,
        ).0,
        views_of(r.activate@) == names_with_flag(views_of(names@), r.selection@, true, names@.len() as int),
        views_of(r.deactivate@) == names_with_flag(views_of(names@), r.selection@, false, names@.len() as int),
        r.total_cost == selected_cost(r.selection@, costs@, costs@.len() as int),
        r.total_cost <= budget,
{
    let (selection, used_sbm) = select_within_budget(sbm_selection, fallback_order, costs, budget);
    proof {
        lemma_greedy_within_budget(fallback_order@, costs@, budget, fallback_order@.len() as int);
    }
    let (activate, deactivate, total) = split_selection(names, selection.as_slice(), costs);
    ActivationPlan { selection, activate, deactivate, total_cost: total, used_sbm_solution: used_sbm }
}

/// A selection within the budget has a total cost within the budget,
/// which therefore fits the cost type.
pub proof fn lemma_budget_bounds_total(selection: Seq<bool>, costs: Seq<u32>, budget: u32)
    requires
        selection.len() == costs.len(),
        spec_respects_budget(selection, costs, budget),
    ensures
        selected_cost(selection, costs, costs.len() as int) <= budget,
        selected_cost(selection, costs, costs.len() as int) <= u32::MAX,
{
}

} // verus!
