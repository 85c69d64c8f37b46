use sum_solver::outcome::{Outcome, Solution, UnsatReason};
use sum_solver::format::render_outcome;
use sum_solver::solve;
use sum_solver::solve_sum;
use sum_solver::termination::TerminationPolicy;

#[test]
fn test_solve_sum_basic() {
    let result = solve_sum(1, 10, 1, 10, 12);
    assert!(result.contains("\"x\":"));
    assert!(result.contains("\"y\":"));
}

#[test]
fn test_solve_sum_impossible() {
    // x in [1,2], y in [1,2], target=100 is impossible
    let result = solve_sum(1, 2, 1, 2, 100);
    assert!(result.contains("error"));
}

#[test]
fn solve_sum_returns_least_pair() {
    assert_eq!(solve_sum(1, 10, 1, 10, 12), "{\"x\": 2, \"y\": 10}");
}

#[test]
fn solve_sum_impossible_message() {
    assert_eq!(solve_sum(1, 2, 1, 2, 100), "{\"error\": \"No solution exists\"}");
}

#[test]
fn solve_sum_rejects_reversed_x_bounds() {
    assert_eq!(solve_sum(5, 1, 0, 10, 6), "{\"error\": \"No solution exists\"}");
}

#[test]
fn solve_sum_rejects_reversed_y_bounds() {
    assert_eq!(solve_sum(0, 10, 9, -9, 6), "{\"error\": \"No solution exists\"}");
}

#[test]
fn solve_reports_invalid_domain_before_searching() {
    let r = solve(5, 1, 0, 10, 6, TerminationPolicy::Indefinite);
    assert_eq!(r, Outcome::Unsatisfiable(UnsatReason::InvalidDomain));
}

#[test]
fn singleton_domains_matching_target() {
    assert_eq!(solve_sum(5, 5, 7, 7, 12), "{\"x\": 5, \"y\": 7}");
}

#[test]
fn singleton_domains_missing_target() {
    let r = solve(5, 5, 7, 7, 13, TerminationPolicy::Indefinite);
    assert_eq!(r, Outcome::Unsatisfiable(UnsatReason::PostRejected));
}

#[test]
fn negative_values_format() {
    assert_eq!(solve_sum(-5, 5, -5, 5, -7), "{\"x\": -5, \"y\": -2}");
}

#[test]
fn extreme_bounds_solved_without_blowup() {
    let r = solve_sum(i32::MIN, i32::MAX, i32::MIN, i32::MAX, -1);
    assert_eq!(r, "{\"x\": -2147483648, \"y\": 2147483647}");
}

#[test]
fn solving_twice_yields_identical_results() {
    assert_eq!(solve_sum(3, 9, -2, 4, 7), solve_sum(3, 9, -2, 4, 7));
    assert_eq!(
        solve(3, 9, -2, 4, 7, TerminationPolicy::Indefinite),
        solve(3, 9, -2, 4, 7, TerminationPolicy::Indefinite)
    );
}

#[test]
fn zero_node_budget_reports_unknown() {
    let r = solve(1, 10, 1, 10, 12, TerminationPolicy::NodeBudget(0));
    assert_eq!(r, Outcome::Unknown(0));
}

#[test]
fn unknown_outcome_renders_termination_message() {
    let r = solve(1, 10, 1, 10, 12, TerminationPolicy::NodeBudget(0));
    let s = render_outcome(&r);
    assert_eq!(s, "{\"error\": \"Search terminated without finding a solution\"}");
}

#[test]
fn generous_node_budget_still_solves() {
    let r = solve(1, 10, 1, 10, 12, TerminationPolicy::NodeBudget(1000));
    assert_eq!(r, Outcome::Satisfiable(Solution { x: 2, y: 10 }));
}

#[test]
fn exhausted_node_budget_reports_how_far_it_got() {
    let r = solve(1, 10, 1, 10, 12, TerminationPolicy::NodeBudget(2));
    assert_eq!(r, Outcome::Unknown(2));
}

#[test]
fn singleton_domains_need_no_search_nodes() {
    let r = solve(5, 5, 7, 7, 12, TerminationPolicy::NodeBudget(0));
    assert_eq!(r, Outcome::Satisfiable(Solution { x: 5, y: 7 }));
}

#[test]
fn rejected_post_needs_no_search_nodes() {
    let r = solve(1, 2, 1, 2, 100, TerminationPolicy::NodeBudget(0));
    assert_eq!(r, Outcome::Unsatisfiable(UnsatReason::PostRejected));
}
