use lib::expr::{DeBruijnIndex, Expr};
use lib::name::NameTable;
use lib::termination::{CallGraph, Entry, SizeChangeMatrix, TerminationChecker, TerminationError};

#[test]
fn entry_ordering() {
    assert!(Entry::Decrease.min(Entry::Equal) == Entry::Decrease);
    assert!(Entry::Equal.min(Entry::Unknown) == Entry::Equal);
    assert!(Entry::Unknown.min(Entry::Unknown) == Entry::Unknown);
}

#[test]
fn entry_addition() {
    assert!(Entry::Unknown.add(Entry::Decrease) == Entry::Unknown);
    assert!(Entry::Decrease.add(Entry::Unknown) == Entry::Unknown);
    assert!(Entry::Decrease.add(Entry::Equal) == Entry::Decrease);
    assert!(Entry::Equal.add(Entry::Equal) == Entry::Equal);
}

#[test]
fn matrix_identity_is_identity() {
    let m = SizeChangeMatrix::identity(3);
    assert_eq!(m.get(0, 0), Entry::Equal);
    assert_eq!(m.get(0, 1), Entry::Unknown);
    assert_eq!(m.get(1, 1), Entry::Equal);
    assert_eq!(m.get(2, 2), Entry::Equal);
    let mut a = SizeChangeMatrix::empty(3, 3);
    a.set(0, 1, Entry::Decrease);
    a.set(1, 2, Entry::Equal);
    assert_eq!(a.compose(&m), a);
    assert_eq!(m.compose(&a), a);
}

#[test]
fn matrix_composition_min_plus() {
    let mut a = SizeChangeMatrix::empty(2, 2);
    a.set(0, 0, Entry::Decrease);
    a.set(1, 1, Entry::Equal);
    let mut b = SizeChangeMatrix::empty(2, 2);
    b.set(0, 0, Entry::Equal);
    b.set(1, 0, Entry::Decrease);
    let c = a.compose(&b);
    assert_eq!(c.get(0, 0), Entry::Decrease);
    assert_eq!(c.get(1, 0), Entry::Decrease);
}

#[test]
fn matrix_closure_of_single_decrease() {
    let mut a = SizeChangeMatrix::empty(1, 1);
    a.set(0, 0, Entry::Decrease);
    let c = a.idempotent_closure();
    assert_eq!(c, a);
    assert!(c.has_diagonal_decrease());
}

#[test]
fn matrix_closure_of_identity() {
    let m = SizeChangeMatrix::identity(2);
    let c = m.idempotent_closure();
    assert_eq!(c, m);
    assert!(!c.has_diagonal_decrease());
}

#[test]
fn idempotent_closure_with_fuel_succeeds_when_sufficient() {
    let m = SizeChangeMatrix::identity(2);
    assert_eq!(m.idempotent_closure_with_fuel(4), Some(m.clone()));
}

#[test]
fn idempotent_closure_with_fuel_returns_none_when_exhausted() {
    let mut m = SizeChangeMatrix::empty(2, 2);
    m.set(0, 1, Entry::Decrease);
    assert_eq!(m.idempotent_closure_with_fuel(0), None);
    assert!(m.idempotent_closure_with_fuel(3).is_some());
}

#[test]
fn call_graph_basics() {
    let mut names = NameTable::new();
    let f = names.intern("f");
    let g = names.intern("g");
    let mut graph = CallGraph::new();
    graph.add_function(f, 2);
    graph.add_function(g, 1);
    graph.add_edge(f, f, SizeChangeMatrix::identity(2));
    graph.add_edge(f, g, SizeChangeMatrix::empty(2, 1));
    assert_eq!(graph.arity(f), Some(2));
    assert_eq!(graph.edges_from(f).len(), 2);
}

#[test]
fn sct_accepts_first_param_decrease() {
    let mut names = NameTable::new();
    let f = names.intern("f");
    let mut graph = CallGraph::new();
    graph.add_function(f, 2);
    let mut m = SizeChangeMatrix::empty(2, 2);
    m.set(0, 0, Entry::Decrease);
    m.set(1, 1, Entry::Equal);
    graph.add_edge(f, f, m);
    let cert = TerminationChecker::new().check(&graph).unwrap();
    assert_eq!(cert.block_size, 1);
    assert!(!cert.witnesses.is_empty());
}

#[test]
fn sct_rejects_no_decrease() {
    let mut names = NameTable::new();
    let f = names.intern("f");
    let mut graph = CallGraph::new();
    graph.add_function(f, 2);
    let mut m = SizeChangeMatrix::empty(2, 2);
    m.set(0, 0, Entry::Equal);
    m.set(1, 1, Entry::Equal);
    graph.add_edge(f, f, m);
    let err = TerminationChecker::new().check(&graph).unwrap_err();
    assert!(matches!(err, TerminationError::NotSizeChangeTerminating { .. }));
}

#[test]
fn sct_accepts_alternating_decrease() {
    let mut names = NameTable::new();
    let f = names.intern("f");
    let mut graph = CallGraph::new();
    graph.add_function(f, 2);
    let mut m = SizeChangeMatrix::empty(2, 2);
    m.set(0, 1, Entry::Decrease);
    m.set(1, 0, Entry::Decrease);
    graph.add_edge(f, f, m);
    let cert = TerminationChecker::new().check(&graph).unwrap();
    assert!(!cert.witnesses.is_empty());
}

#[test]
fn sct_accepts_ackermann_style() {
    let mut names = NameTable::new();
    let ack = names.intern("ack");
    let mut graph = CallGraph::new();
    graph.add_function(ack, 2);
    let mut m1 = SizeChangeMatrix::empty(2, 2);
    m1.set(0, 0, Entry::Decrease);
    m1.set(1, 1, Entry::Equal);
    graph.add_edge(ack, ack, m1);
    let mut m2 = SizeChangeMatrix::empty(2, 2);
    m2.set(0, 0, Entry::Equal);
    m2.set(1, 1, Entry::Decrease);
    graph.add_edge(ack, ack, m2);
    let cert = TerminationChecker::new().check(&graph).unwrap();
    assert!(cert.closure_size >= 2);
}

#[test]
fn sct_rejects_constant_loop() {
    let mut names = NameTable::new();
    let f = names.intern("f");
    let mut graph = CallGraph::new();
    graph.add_function(f, 1);
    graph.add_edge(f, f, SizeChangeMatrix::empty(1, 1));
    let err = TerminationChecker::new().check(&graph).unwrap_err();
    assert!(matches!(err, TerminationError::NotSizeChangeTerminating { .. }));
}

#[test]
fn sct_accepts_zero_arity() {
    let mut names = NameTable::new();
    let f = names.intern("f");
    let mut graph = CallGraph::new();
    graph.add_function(f, 0);
    graph.add_edge(f, f, SizeChangeMatrix::empty(0, 0));
    let err = TerminationChecker::new().check(&graph).unwrap_err();
    assert!(matches!(err, TerminationError::NotSizeChangeTerminating { .. }));
}

#[test]
fn sct_rejects_unknown_callee() {
    let mut names = NameTable::new();
    let f = names.intern("f");
    let g = names.intern("g");
    let mut graph = CallGraph::new();
    graph.add_function(f, 1);
    graph.add_edge(f, g, SizeChangeMatrix::empty(1, 1));
    let err = TerminationChecker::new().check(&graph).unwrap_err();
    assert!(matches!(err, TerminationError::UnknownCallee { .. }));
}

#[test]
fn build_graph_for_simple_recursion() {
    let mut names = NameTable::new();
    let f = names.intern("f");
    let x = names.intern("x");
    let body = Expr::app(Expr::Const(f, Vec::new()), Expr::Var(DeBruijnIndex(0)));
    let graph = TerminationChecker::new().build_self_call_graph(f, &[x], &body);
    assert_eq!(graph.edges.len(), 1);
    assert_eq!(graph.edges[0].matrix.get(0, 0), Entry::Equal);
}

#[test]
fn build_graph_treats_application_as_none() {
    let mut names = NameTable::new();
    let f = names.intern("f");
    let x = names.intern("x");
    let pred = names.intern("pred");
    let actual = Expr::app(Expr::Const(pred, Vec::new()), Expr::Var(DeBruijnIndex(0)));
    let body = Expr::app(Expr::Const(f, Vec::new()), actual);
    let graph = TerminationChecker::new().build_self_call_graph(f, &[x], &body);
    assert_eq!(graph.edges.len(), 1);
    assert_eq!(graph.edges[0].matrix.get(0, 0), Entry::Unknown);
}

#[test]
fn build_graph_catches_zero_arity_self_reference() {
    let mut names = NameTable::new();
    let f = names.intern("f");
    let body = Expr::Const(f, Vec::new());
    let graph = TerminationChecker::new().build_self_call_graph(f, &[], &body);
    assert_eq!(graph.edges.len(), 1);
    assert_eq!(graph.edges[0].matrix.rows(), 0);
    assert_eq!(graph.edges[0].matrix.cols(), 0);
}

#[test]
fn certificate_summary_is_nonempty() {
    let mut names = NameTable::new();
    let f = names.intern("f");
    let mut graph = CallGraph::new();
    graph.add_function(f, 1);
    let mut m = SizeChangeMatrix::empty(1, 1);
    m.set(0, 0, Entry::Decrease);
    graph.add_edge(f, f, m);
    let cert = TerminationChecker::new().check(&graph).unwrap();
    assert!(!cert.summary().is_empty());
}

#[test]
fn mutual_call_graph_builds_cross_edges() {
    let mut names = NameTable::new();
    let even = names.intern("even");
    let odd = names.intern("odd");
    let n = names.intern("n");
    let even_body = Expr::app(Expr::Const(odd, Vec::new()), Expr::Var(DeBruijnIndex(0)));
    let odd_body = Expr::app(Expr::Const(even, Vec::new()), Expr::Var(DeBruijnIndex(0)));
    let functions = vec![(even, vec![n]), (odd, vec![n])];
    let bodies = vec![even_body, odd_body];
    let graph = TerminationChecker::new().build_mutual_call_graph(&functions, &bodies);
    assert_eq!(graph.functions.len(), 2);
    assert_eq!(graph.edges.len(), 2);
}

#[test]
fn mutual_block_with_no_internal_calls_builds_empty_graph() {
    let mut names = NameTable::new();
    let f = names.intern("f");
    let g = names.intern("g");
    let x = names.intern("x");
    let zero = names.intern("Nat.zero");
    let functions = vec![(f, vec![x]), (g, vec![x])];
    let bodies = vec![Expr::Const(zero, Vec::new()), Expr::Const(zero, Vec::new())];
    let graph = TerminationChecker::new().build_mutual_call_graph(&functions, &bodies);
    assert!(graph.edges.is_empty());
}

#[test]
fn mutual_even_odd_fails_sct() {
    let mut names = NameTable::new();
    let even = names.intern("even");
    let odd = names.intern("odd");
    let n = names.intern("n");
    let even_body = Expr::app(Expr::Const(odd, Vec::new()), Expr::Var(DeBruijnIndex(0)));
    let odd_body = Expr::app(Expr::Const(even, Vec::new()), Expr::Var(DeBruijnIndex(0)));
    let functions = vec![(even, vec![n]), (odd, vec![n])];
    let bodies = vec![even_body, odd_body];
    let graph = TerminationChecker::new().build_mutual_call_graph(&functions, &bodies);
    let err = TerminationChecker::new().check(&graph).unwrap_err();
    assert!(matches!(err, TerminationError::NotSizeChangeTerminating { .. }));
}

#[test]
fn matrix_text_and_application() {
    let mut m = SizeChangeMatrix::empty(2, 2);
    m.set(0, 0, Entry::Decrease);
    m.set(1, 1, Entry::Equal);
    assert!(!m.describe().is_empty());
    let d = TerminationChecker::default();
    let _ = d;
}

#[test]
fn closure_holds_each_matrix_once() {
    let mut names = NameTable::new();
    let f = names.intern("f");
    let mut m = SizeChangeMatrix::empty(1, 1);
    m.set(0, 0, Entry::Decrease);
    let mut graph = CallGraph::new();
    graph.add_function(f, 1);
    graph.add_edge(f, f, m.clone());
    graph.add_edge(f, f, m);
    let cert = TerminationChecker::new().check(&graph).unwrap();
    assert_eq!(cert.block_size, 1);
    assert_eq!(cert.closure_size, 1);
    assert_eq!(cert.witnesses, vec![(0, 0)]);
    assert_eq!(cert.summary(), "SCT certificate for #0: block of 1, closure of 1 matrices, 1 witnesses");
}

#[test]
fn unregistered_source_is_an_unknown_callee() {
    let mut names = NameTable::new();
    let f = names.intern("f");
    let g = names.intern("g");
    let mut graph = CallGraph::new();
    graph.add_function(g, 1);
    graph.add_edge(f, g, SizeChangeMatrix::empty(1, 1));
    let err = TerminationChecker::new().check(&graph).unwrap_err();
    assert!(matches!(err, TerminationError::UnknownCallee { .. }));
}

#[test]
fn identity_is_a_unit_of_composition() {
    let mut m = SizeChangeMatrix::empty(2, 3);
    m.set(0, 1, Entry::Decrease);
    m.set(1, 2, Entry::Equal);
    let left = SizeChangeMatrix::identity(2).compose(&m);
    let right = m.compose(&SizeChangeMatrix::identity(3));
    for i in 0..2 {
        for j in 0..3 {
            assert!(left.get(i, j) == m.get(i, j));
            assert!(right.get(i, j) == m.get(i, j));
        }
    }
}
