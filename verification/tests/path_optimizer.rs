use rs_smarttcp::path_optimizer::{greedy_fill, respects_budget, select_within_budget};

#[test]
fn budget_check_sums_only_selected_costs() {
    assert!(respects_budget(&[true, false, true], &[100, 500, 200], 300));
    assert!(!respects_budget(&[true, true, true], &[100, 500, 200], 300));
    assert!(respects_budget(&[], &[], 0));
    assert!(respects_budget(&[false, false], &[u32::MAX, u32::MAX], 0));
    assert!(!respects_budget(&[true, true], &[u32::MAX, u32::MAX], u32::MAX));
}

#[test]
fn greedy_fill_takes_paths_in_order_while_they_fit() {
    // Order as a value-density sort would give it.
    let costs = [100u32, 50, 200, 30, 500];
    assert_eq!(greedy_fill(&[4, 2, 3, 0, 1], &costs, 300), vec![false, true, true, true, false]);
    assert_eq!(greedy_fill(&[0, 1, 2, 3, 4], &costs, 80), vec![false, true, false, true, false]);
    assert_eq!(greedy_fill(&[], &costs, 1000), vec![false; 5]);
}

#[test]
fn a_solution_within_budget_is_kept() {
    let costs = [100u32, 100, 50, 500];
    let (sel, used_sbm) = select_within_budget(Some(vec![true, true, true, false]), &[0, 1, 2, 3], &costs, 300);
    assert!(used_sbm);
    assert_eq!(sel, vec![true, true, true, false]);
}

#[test]
fn a_solution_over_budget_falls_back_to_the_greedy_fill() {
    let costs = [100u32, 100, 50, 500];
    let (sel, used_sbm) = select_within_budget(Some(vec![true, true, true, true]), &[3, 0, 1, 2], &costs, 300);
    assert!(!used_sbm);
    assert_eq!(sel, vec![true, true, true, false]);
    assert!(respects_budget(&sel, &costs, 300));
}

use rs_smarttcp::path_optimizer::{plan_path_activation, split_selection};

#[test]
fn split_selection_separates_names_and_sums_selected_costs() {
    let names: Vec<String> = ["Ethernet1", "Ethernet2", "WiFi1", "WAN1 Fiber"].iter().map(|s| s.to_string()).collect();
    let (on, off, total) = split_selection(&names, &[true, false, true, false], &[100, 100, 50, 500]);
    assert_eq!(on, vec!["Ethernet1".to_string(), "WiFi1".to_string()]);
    assert_eq!(off, vec!["Ethernet2".to_string(), "WAN1 Fiber".to_string()]);
    assert_eq!(total, 150);
}

#[test]
fn optimize_path_selection_reports_used_sbm_solution_and_respects_budget() {
    let names: Vec<String> = ["Ethernet1", "Ethernet2", "WiFi1", "WAN1 Fiber"].iter().map(|s| s.to_string()).collect();
    let costs = [100u32, 100, 50, 500];
    // An over-budget candidate falls back to the greedy fill.
    let plan = plan_path_activation(&names, Some(vec![true, true, true, true]), &[0, 1, 2, 3], &costs, 300);
    assert!(!plan.used_sbm_solution);
    assert!(plan.total_cost <= 300);
    assert_eq!(plan.activate.len() + plan.deactivate.len(), names.len());
    assert_eq!(plan.activate, vec!["Ethernet1".to_string(), "Ethernet2".to_string(), "WiFi1".to_string()]);
    assert_eq!(plan.selection, vec![true, true, true, false]);
    assert_eq!(plan.total_cost, 250);
    // A candidate within budget is used as it is.
    let plan = plan_path_activation(&names, Some(vec![false, false, false, true]), &[], &costs, 500);
    assert!(plan.used_sbm_solution);
    assert_eq!(plan.activate, vec!["WAN1 Fiber".to_string()]);
    assert_eq!(plan.total_cost, 500);
}

#[test]
fn no_sbm_solution_within_budget_falls_back_to_the_greedy_fill() {
    let names: Vec<String> = ["a", "b", "c"].iter().map(|s| s.to_string()).collect();
    let plan = plan_path_activation(&names, None, &[2, 0, 1], &[100, 100, 50], 160);
    assert!(!plan.used_sbm_solution);
    assert_eq!(plan.selection, vec![true, false, true]);
    assert_eq!(plan.total_cost, 150);
    assert_eq!(plan.activate, vec!["a".to_string(), "c".to_string()]);
}
