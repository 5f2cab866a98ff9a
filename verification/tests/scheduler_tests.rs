use scheduler::context::{Core, LifecycleState};
use scheduler::rule_graph::{RuleEdges, RuleGraph, RuleGraphEntry};
use scheduler::scheduler::{ExecutionStat, Scheduler, SchedulerError};
use scheduler::selectors::{Select, SelectDependencies, Selector};
use scheduler::types::{Failure, Field, Key, RootResult, TypeConstraint, TypeId, Value};

fn tid(id: u64) -> TypeId {
    TypeId { id }
}

fn product(constraint: u64) -> TypeConstraint {
    TypeConstraint { constraint }
}

fn subject(id: u64, type_id: u64) -> Key {
    Key { id, type_id: tid(type_id) }
}

fn select_row(subject_type: u64, prod: u64, edges: u64) -> RuleGraphEntry {
    RuleGraphEntry {
        subject_type: tid(subject_type),
        selector: Selector::Select(Select { product: product(prod) }),
        edges: RuleEdges { id: edges },
    }
}

fn scheduler_with(rows: Vec<RuleGraphEntry>) -> Scheduler {
    Scheduler::new(Core::new(RuleGraph::new(rows)), Vec::new())
}

#[test]
fn register_select_reports_pending_state() {
    let mut s = scheduler_with(vec![select_row(1, 10, 100)]);
    s.add_root_select(subject(7, 1), product(10)).unwrap();
    let states = s.root_states();
    assert_eq!(states.len(), 1);
    assert_eq!(states[0].0, subject(7, 1));
    assert_eq!(states[0].1, product(10));
    assert!(states[0].2.is_none());
}

#[test]
fn registration_failure_names_subject_type_and_selector() {
    let mut s = scheduler_with(vec![select_row(1, 10, 100)]);
    // No resolver row for subject type 2: nothing may be appended.
    let err = s.add_root_select(subject(9, 2), product(10)).unwrap_err();
    match err {
        SchedulerError::NoRootEdges { subject_type, selector } => {
            assert_eq!(subject_type, tid(2));
            match selector {
                Selector::Select(sel) => assert_eq!(sel.product, product(10)),
                Selector::SelectDependencies(_) => panic!("wrong selector kind reported"),
            }
        }
        _ => panic!("expected a resolution failure"),
    }
    assert_eq!(s.root_states().len(), 0);
}

#[test]
fn registration_failure_keeps_root_list_length_zero() {
    let mut s = scheduler_with(vec![]);
    assert!(s.add_root_select(subject(1, 1), product(10)).is_err());
    assert_eq!(s.root_states().len(), 0);
    assert_eq!(s.root_nodes().len(), 0);
}

#[test]
fn execute_single_select_end_to_end() {
    let mut s = scheduler_with(vec![select_row(1, 10, 100)]);
    s.add_root_select(subject(7, 1), product(10)).unwrap();
    let pending = s.pending_root_nodes();
    assert_eq!(pending.len(), 1);
    let outcomes: Vec<RootResult> = vec![Ok(Value::Atom(42))];
    let stat = s.execute(&outcomes);
    assert_eq!(stat, ExecutionStat { runnable_count: 0, scheduling_iterations: 0 });
    let states = s.root_states();
    assert_eq!(states.len(), 1);
    assert_eq!(states[0].0, subject(7, 1));
    assert_eq!(states[0].1, product(10));
    match &states[0].2 {
        Some(Ok(Value::Atom(v))) => assert_eq!(*v, 42),
        _ => panic!("expected the computed value"),
    }
}

#[test]
fn execute_mixed_outcomes_reports_each_root() {
    let mut s = scheduler_with(vec![select_row(1, 10, 100), select_row(2, 20, 200)]);
    s.add_root_select(subject(7, 1), product(10)).unwrap();
    s.add_root_select(subject(8, 2), product(20)).unwrap();
    assert_eq!(s.pending_root_nodes().len(), 2);
    let outcomes: Vec<RootResult> = vec![Err(Failure { info: 13 }), Ok(Value::Atom(5))];
    s.execute(&outcomes);
    let states = s.root_states();
    assert_eq!(states.len(), 2);
    match &states[0].2 {
        Some(Err(f)) => assert_eq!(f.info, 13),
        _ => panic!("first root should have failed"),
    }
    match &states[1].2 {
        Some(Ok(Value::Atom(v))) => assert_eq!(*v, 5),
        _ => panic!("second root should have succeeded"),
    }
}

#[test]
fn identical_roots_share_one_node_and_result() {
    let mut s = scheduler_with(vec![select_row(1, 10, 100)]);
    s.add_root_select(subject(7, 1), product(10)).unwrap();
    s.add_root_select(subject(7, 1), product(10)).unwrap();
    assert_eq!(s.root_states().len(), 2);
    // One shared node key: only one computation is pending.
    let pending = s.pending_root_nodes();
    assert_eq!(pending.len(), 1);
    let outcomes: Vec<RootResult> = vec![Ok(Value::Atom(77))];
    s.execute(&outcomes);
    let states = s.root_states();
    for state in &states {
        match &state.2 {
            Some(Ok(Value::Atom(v))) => assert_eq!(*v, 77),
            _ => panic!("both roots must share the memoized result"),
        }
    }
}

#[test]
fn reset_keeps_memoized_entries() {
    let mut s = scheduler_with(vec![select_row(1, 10, 100)]);
    s.add_root_select(subject(7, 1), product(10)).unwrap();
    let outcomes: Vec<RootResult> = vec![Ok(Value::Atom(42))];
    s.execute(&outcomes);
    s.reset();
    assert_eq!(s.root_states().len(), 0);
    // An identical registration reuses the memoized result: nothing pending,
    // and the outcome is visible without any new computation.
    s.add_root_select(subject(7, 1), product(10)).unwrap();
    assert_eq!(s.pending_root_nodes().len(), 0);
    let no_outcomes: Vec<RootResult> = vec![];
    s.execute(&no_outcomes);
    let states = s.root_states();
    assert_eq!(states.len(), 1);
    match &states[0].2 {
        Some(Ok(Value::Atom(v))) => assert_eq!(*v, 42),
        _ => panic!("memoized result should be reused"),
    }
}

#[test]
fn registration_order_preserved_across_reset_cycles() {
    let rows = vec![select_row(1, 10, 100), select_row(2, 20, 200), select_row(3, 30, 300)];
    let mut s = scheduler_with(rows);
    s.add_root_select(subject(1, 1), product(10)).unwrap();
    s.add_root_select(subject(2, 2), product(20)).unwrap();
    let states = s.root_states();
    assert_eq!(states[0].0, subject(1, 1));
    assert_eq!(states[1].0, subject(2, 2));
    s.reset();
    s.add_root_select(subject(3, 3), product(30)).unwrap();
    s.add_root_select(subject(1, 1), product(10)).unwrap();
    let states = s.root_states();
    assert_eq!(states.len(), 2);
    assert_eq!(states[0].0, subject(3, 3));
    assert_eq!(states[0].1, product(30));
    assert_eq!(states[1].0, subject(1, 1));
    assert_eq!(states[1].1, product(10));
}

#[test]
fn lifecycle_mutation_fails_while_context_is_held() {
    let mut s = scheduler_with(vec![select_row(1, 10, 100)]);
    let context = s.create_context(0);
    assert!(matches!(s.task_end(), Err(SchedulerError::CoreShared)));
    assert!(matches!(s.set_root_subject_types(vec![tid(1)]), Err(SchedulerError::CoreShared)));
    assert_eq!(s.core.state, LifecycleState::Initializing);
    s.release_context(context);
    assert!(s.task_end().is_ok());
    assert!(s.set_root_subject_types(vec![tid(1)]).is_ok());
    assert_eq!(s.core.state, LifecycleState::Ready);
}

#[test]
fn select_dependencies_three_elements_in_field_order() {
    let field = Field { id: 5 };
    let sd = SelectDependencies {
        product: product(10),
        dep_product: product(40),
        field,
        field_types: vec![tid(1)],
    };
    let row = RuleGraphEntry {
        subject_type: tid(2),
        selector: Selector::SelectDependencies(sd),
        edges: RuleEdges { id: 900 },
    };
    let mut s = scheduler_with(vec![row]);
    s.add_root_select_dependencies(subject(3, 2), product(10), product(40), field, vec![tid(1)])
        .unwrap();
    assert_eq!(s.pending_root_nodes().len(), 1);
    // The subject's field enumerates three elements; the aggregated result
    // keeps their declared order.
    let outcomes: Vec<RootResult> = vec![Ok(Value::List(vec![21, 22, 23]))];
    s.execute(&outcomes);
    let states = s.root_states();
    assert_eq!(states.len(), 1);
    assert_eq!(states[0].1, product(10));
    match &states[0].2 {
        Some(Ok(Value::List(items))) => assert_eq!(items, &vec![21, 22, 23]),
        _ => panic!("expected the aggregated collection"),
    }
}

#[test]
fn select_dependencies_resolution_failure_names_selector() {
    let mut s = scheduler_with(vec![select_row(1, 10, 100)]);
    let err = s
        .add_root_select_dependencies(
            subject(3, 2),
            product(10),
            product(40),
            Field { id: 5 },
            vec![tid(1), tid(6)],
        )
        .unwrap_err();
    match err {
        SchedulerError::NoRootEdges { subject_type, selector } => {
            assert_eq!(subject_type, tid(2));
            match selector {
                Selector::SelectDependencies(sd) => {
                    assert_eq!(sd.product, product(10));
                    assert_eq!(sd.dep_product, product(40));
                    assert_eq!(sd.field, Field { id: 5 });
                    assert_eq!(sd.field_types, vec![tid(1), tid(6)]);
                }
                Selector::Select(_) => panic!("wrong selector kind reported"),
            }
        }
        _ => panic!("expected a resolution failure"),
    }
    assert_eq!(s.root_states().len(), 0);
}

#[test]
fn committing_types_rejects_nonconforming_roots() {
    let mut s = scheduler_with(vec![select_row(1, 10, 100)]);
    s.add_root_select(subject(7, 1), product(10)).unwrap();
    let err = s.set_root_subject_types(vec![tid(2)]).unwrap_err();
    match err {
        SchedulerError::UnexpectedSubjectType { subject_type } => assert_eq!(subject_type, tid(1)),
        _ => panic!("expected the subject-type mismatch to be flagged"),
    }
    assert_eq!(s.core.state, LifecycleState::Initializing);
}

#[test]
fn ready_core_rejects_unexpected_subject_types_at_registration() {
    let mut s = scheduler_with(vec![select_row(1, 10, 100), select_row(2, 20, 200)]);
    s.set_root_subject_types(vec![tid(1)]).unwrap();
    assert!(s.add_root_select(subject(7, 1), product(10)).is_ok());
    let err = s.add_root_select(subject(8, 2), product(20)).unwrap_err();
    match err {
        SchedulerError::UnexpectedSubjectType { subject_type } => assert_eq!(subject_type, tid(2)),
        _ => panic!("expected the subject-type mismatch to be flagged"),
    }
    assert_eq!(s.root_states().len(), 1);
}

#[test]
fn root_nodes_carry_subject_and_edges() {
    let mut s = scheduler_with(vec![select_row(1, 10, 100)]);
    s.add_root_select(subject(7, 1), product(10)).unwrap();
    let nodes = s.root_nodes();
    assert_eq!(nodes.len(), 1);
    assert_eq!(nodes[0].subject, subject(7, 1));
    assert_eq!(nodes[0].edges, RuleEdges { id: 100 });
    match &nodes[0].selector {
        Selector::Select(sel) => assert_eq!(sel.product, product(10)),
        Selector::SelectDependencies(_) => panic!("wrong selector kind"),
    }
}

#[test]
fn first_matching_resolver_row_wins() {
    let rows = vec![select_row(1, 10, 100), select_row(1, 10, 999)];
    let mut s = scheduler_with(rows);
    s.add_root_select(subject(7, 1), product(10)).unwrap();
    let nodes = s.root_nodes();
    assert_eq!(nodes[0].edges, RuleEdges { id: 100 });
}

#[test]
fn task_end_succeeds_when_exclusive() {
    let mut s = scheduler_with(vec![]);
    assert!(s.task_end().is_ok());
}
