use sum_solver::constraint::{ConstraintRegistry, PostError, SumConstraint};
use sum_solver::domain::Domain;
use sum_solver::format::format_i32;
use sum_solver::outcome::{Outcome, Solution, UnsatReason};
use sum_solver::propagate::propagate;
use sum_solver::search::search;
use sum_solver::store::{RegisterError, TightenError, VariableId, VariableStore};
use sum_solver::termination::TerminationPolicy;

#[test]
fn register_rejects_reversed_bounds() {
    let mut store = VariableStore::new();
    assert_eq!(store.register(3, 2), Err(RegisterError::InvalidDomain));
    assert_eq!(store.len(), 0);
}

#[test]
fn register_hands_out_stable_identifiers() {
    let mut store = VariableStore::new();
    assert_eq!(store.register(1, 5), Ok(VariableId { index: 0 }));
    assert_eq!(store.register(-4, 4), Ok(VariableId { index: 1 }));
    assert_eq!(store.current_domain(VariableId { index: 0 }), (1, 5));
    assert_eq!(store.current_domain(VariableId { index: 1 }), (-4, 4));
}

#[test]
fn tighten_rejects_empty_range() {
    let mut store = VariableStore::new();
    let id = store.register(1, 5).unwrap();
    assert_eq!(store.tighten(id, 4, 3), Err(TightenError::EmptyDomain));
    assert_eq!(store.current_domain(id), (1, 5));
}

#[test]
fn tighten_replaces_the_domain() {
    let mut store = VariableStore::new();
    let id = store.register(1, 5).unwrap();
    assert_eq!(store.tighten(id, 2, 4), Ok(()));
    assert_eq!(store.current_domain(id), (2, 4));
}

#[test]
fn post_rejects_unknown_variable() {
    let mut store = VariableStore::new();
    let x = store.register(1, 10).unwrap();
    let mut registry = ConstraintRegistry::new();
    let c = SumConstraint { x, y: VariableId { index: 7 }, target: 3, tag: 0 };
    assert_eq!(registry.post(&mut store, c), Err(PostError::UnknownVariable));
    assert_eq!(store.current_domain(x), (1, 10));
}

#[test]
fn post_tightens_both_domains() {
    let mut store = VariableStore::new();
    let x = store.register(1, 10).unwrap();
    let y = store.register(1, 10).unwrap();
    let mut registry = ConstraintRegistry::new();
    let tag = registry.new_constraint_tag();
    let c = SumConstraint { x, y, target: 12, tag };
    assert_eq!(registry.post(&mut store, c), Ok(()));
    assert_eq!(store.current_domain(x), (2, 10));
    assert_eq!(store.current_domain(y), (2, 10));
}

#[test]
fn post_rejects_hopeless_domains() {
    let mut store = VariableStore::new();
    let x = store.register(1, 2).unwrap();
    let y = store.register(1, 2).unwrap();
    let mut registry = ConstraintRegistry::new();
    let c = SumConstraint { x, y, target: 100, tag: 0 };
    assert_eq!(registry.post(&mut store, c), Err(PostError::ImmediatelyUnsatisfiable));
    assert_eq!(store.current_domain(x), (1, 2));
    assert_eq!(store.current_domain(y), (1, 2));
}

#[test]
fn constraint_tags_count_up() {
    let mut registry = ConstraintRegistry::new();
    assert_eq!(registry.new_constraint_tag(), 0);
    assert_eq!(registry.new_constraint_tag(), 1);
}

#[test]
fn propagation_reaches_bounds_consistency() {
    let mut dx = Domain::new(1, 10);
    let mut dy = Domain::new(3, 4);
    assert_eq!(propagate(&mut dx, &mut dy, 12), Ok(()));
    assert_eq!((dx.lo, dx.hi), (8, 9));
    assert_eq!((dy.lo, dy.hi), (3, 4));
}

#[test]
fn propagation_detects_an_empty_domain() {
    let mut dx = Domain::new(1, 2);
    let mut dy = Domain::new(1, 2);
    assert_eq!(propagate(&mut dx, &mut dy, 100), Err(TightenError::EmptyDomain));
}

#[test]
fn search_finds_the_least_solution() {
    let r = search(Domain::new(1, 10), Domain::new(1, 10), 12, TerminationPolicy::Indefinite);
    assert_eq!(r, Outcome::Satisfiable(Solution { x: 2, y: 10 }));
}

#[test]
fn search_exhausts_a_hopeless_space() {
    let r = search(Domain::new(1, 2), Domain::new(1, 2), 100, TerminationPolicy::Indefinite);
    assert_eq!(r, Outcome::Unsatisfiable(UnsatReason::SearchExhausted));
}

#[test]
fn decimal_formatting_exact_values() {
    assert_eq!(format_i32(0), "0");
    assert_eq!(format_i32(7), "7");
    assert_eq!(format_i32(10), "10");
    assert_eq!(format_i32(-123), "-123");
    assert_eq!(format_i32(i32::MAX), "2147483647");
    assert_eq!(format_i32(i32::MIN), "-2147483648");
}
