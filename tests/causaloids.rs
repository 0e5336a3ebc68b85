use deep_causality::assumption::HasData;
use deep_causality::causaloid::{
    build_causaloid, build_causaloid_collection, build_causaloid_graph, AggregationPolicy,
    CausalFn, ThresholdFn,
};
use deep_causality::causaloid_graph::CausaloidGraph;
use deep_causality::errors::ContextIndexError;
use deep_causality::fixtures::{
    get_inferable_coll, get_test_assumption, get_test_assumption_coll, get_test_assumption_map,
    get_test_causality_array, get_test_causality_coll, get_test_causality_map, get_test_causaloid,
    get_test_num_array, get_test_obs_coll,
};
use deep_causality::numeric::NumericalValue;

fn threshold_fn() -> ThresholdFn {
    ThresholdFn { threshold: NumericalValue::ratio(55, 100) }
}

#[test]
fn causal_function_edge_cases() {
    let f = threshold_fn();
    assert!(matches!(f.eval(&NumericalValue::ratio(55, 100)), Ok(true)));
    assert!(matches!(f.eval(&NumericalValue::ratio(549, 1000)), Ok(false)));
    let nan = f.eval(&NumericalValue::NotANumber).unwrap_err();
    assert!(nan.message().contains("NAN"));
    let inf = f.eval(&NumericalValue::Infinite { negative: false }).unwrap_err();
    assert!(inf.message().contains("infinite"));
    let neg_inf = f.eval(&NumericalValue::Infinite { negative: true }).unwrap_err();
    assert!(neg_inf.message().contains("infinite"));
    let neg = f.eval(&NumericalValue::Finite { negative: true, numerator: 1, denominator: 1 }).unwrap_err();
    assert!(neg.message().contains("negative"));
}

#[test]
fn test_causaloid_evaluates() {
    let c = get_test_causaloid();
    assert_eq!(c.id(), 1);
    assert!(c.is_active());
    assert_eq!(c.description(), "tests whether data exceeds threshold of 0.55");
    assert_eq!(c.data_set_id(), "Test data");
    assert!(matches!(c.verify_single_cause(&NumericalValue::ratio(6, 10)), Ok(true)));
    assert!(matches!(c.verify_single_cause(&NumericalValue::ratio(1, 10)), Ok(false)));
    assert!(c.verify_single_cause(&NumericalValue::NotANumber).is_err());
}

#[test]
fn end_to_end_build_and_evaluate() {
    let all_obs = get_test_obs_coll();
    let data: Vec<NumericalValue> = all_obs.iter().map(|o| o.observation).collect();
    let assumption = get_test_assumption();
    assert!(assumption.verify_assumption(&data));
    assert!(!assumption.verify_assumption(&[]));
    let c = build_causaloid(
        7,
        threshold_fn(),
        "exceeds 0.55".to_string(),
        "Test data".to_string(),
        &get_inferable_coll(false),
        &get_inferable_coll(true),
    )
    .unwrap();
    assert_eq!(c.id(), 7);
    let mut c = c;
    c.set_active(false);
    assert!(!c.is_active());
    assert_eq!(c.id(), 7);
    assert!(matches!(c.verify_single_cause(&NumericalValue::ratio(6, 10)), Ok(true)));
}

#[test]
fn build_fails_on_swapped_evidence() {
    let r = build_causaloid(
        1,
        threshold_fn(),
        String::new(),
        String::new(),
        &get_inferable_coll(true),
        &get_inferable_coll(false),
    );
    assert!(r.is_err());
    let r2 = build_causaloid(
        1,
        threshold_fn(),
        String::new(),
        String::new(),
        &get_inferable_coll(false),
        &get_inferable_coll(false),
    );
    assert!(r2.unwrap_err().message().contains("inverse"));
}

#[test]
fn collection_aggregation() {
    let low = build_causaloid(2, ThresholdFn { threshold: NumericalValue::from_integer(1) }, String::new(), String::new(), &Vec::new(), &Vec::new()).unwrap();
    let mut members = get_test_causality_coll();
    members.push(low);
    let coll = build_causaloid_collection(9, members, "all".to_string()).unwrap();
    let x = NumericalValue::ratio(6, 10);
    assert!(matches!(coll.verify_collection(&x, AggregationPolicy::All), Ok(false)));
    assert!(matches!(coll.verify_collection(&x, AggregationPolicy::Any), Ok(true)));
    assert!(matches!(coll.verify_collection(&NumericalValue::from_integer(2), AggregationPolicy::All), Ok(true)));
    assert!(coll.verify_collection(&NumericalValue::NotANumber, AggregationPolicy::Any).is_err());
    assert!(coll.verify_single_cause(&x).is_err());
    let nested = build_causaloid_collection(10, vec![coll], String::new());
    assert!(nested.is_err());
}

#[test]
fn empty_collection_aggregation() {
    let coll = build_causaloid_collection::<ThresholdFn>(1, Vec::new(), String::new()).unwrap();
    let x = NumericalValue::ratio(6, 10);
    assert!(matches!(coll.verify_collection(&x, AggregationPolicy::All), Ok(true)));
    assert!(matches!(coll.verify_collection(&x, AggregationPolicy::Any), Ok(false)));
}

#[test]
fn fixture_collections() {
    assert_eq!(get_test_assumption_coll().len(), 3);
    let m = get_test_assumption_map();
    assert_eq!(m.len(), 3);
    assert!(m.contains_key(&1) && m.contains_key(&2) && m.contains_key(&3));
    assert_eq!(m[&2].assumption_fn, HasData);
    assert_eq!(get_test_causality_array().len(), 10);
    assert_eq!(get_test_causality_coll().len(), 3);
    assert_eq!(get_test_causality_map().len(), 3);
    let a = get_test_num_array();
    assert_eq!(a[0], NumericalValue::ratio(84, 10));
    assert_eq!(a[9], NumericalValue::ratio(99, 10));
}

#[test]
fn causaloid_graph_referential_contract() {
    let mut g: CausaloidGraph<ThresholdFn> = CausaloidGraph::new();
    let a = g.add_causaloid(get_test_causaloid());
    let b = g.add_causaloid(get_test_causaloid());
    assert_ne!(a, b);
    assert_eq!(g.size(), 2);
    assert_eq!(g.add_edge(5, b), Err(ContextIndexError::SourceNotFound(5)));
    assert_eq!(g.add_edge(a, 5), Err(ContextIndexError::TargetNotFound(5)));
    assert_eq!(g.add_edge(a, b), Ok(()));
    assert!(g.contains_edge(a, b));
    assert_eq!(g.number_edges(), 1);
    assert_eq!(g.remove_edge(a, b), Ok(()));
    assert_eq!(g.remove_edge(a, b), Err(ContextIndexError::EdgeFailure(a, b)));
    assert!(g.get_causaloid(a).is_some());
    assert_eq!(g.remove_causaloid(a), Ok(()));
    assert!(!g.contains_causaloid(a));
    assert!(g.get_causaloid(a).is_none());
    assert_eq!(g.remove_causaloid(a), Err(ContextIndexError::NodeNotFound(a)));
}

fn single(id: u64, n: u64, d: u64) -> deep_causality::causaloid::Causaloid<ThresholdFn> {
    build_causaloid(id, ThresholdFn { threshold: NumericalValue::ratio(n, d) }, String::new(), String::new(), &Vec::new(), &Vec::new()).unwrap()
}

#[test]
fn graph_evaluation_covers_reachable_nodes_only() {
    let mut g: CausaloidGraph<ThresholdFn> = CausaloidGraph::new();
    let a = g.add_causaloid(single(1, 1, 2));
    let b = g.add_causaloid(single(2, 1, 4));
    let c = g.add_causaloid(single(3, 100, 1));
    assert_eq!(g.add_edge(a, b), Ok(()));
    let x = NumericalValue::ratio(6, 10);
    // c is not reachable from a: its false verdict does not count
    assert!(matches!(g.evaluate_from(a, &x, AggregationPolicy::All), Ok(true)));
    assert!(matches!(g.evaluate_from(c, &x, AggregationPolicy::All), Ok(false)));
    assert!(matches!(g.evaluate_from(b, &x, AggregationPolicy::Any), Ok(true)));
    assert_eq!(g.add_edge(b, c), Ok(()));
    assert!(matches!(g.evaluate_from(a, &x, AggregationPolicy::All), Ok(false)));
    assert!(matches!(g.evaluate_from(a, &x, AggregationPolicy::Any), Ok(true)));
    assert!(g.evaluate_from(9, &x, AggregationPolicy::All).is_err());
    assert!(g.evaluate_from(a, &NumericalValue::NotANumber, AggregationPolicy::Any).is_err());
}

#[test]
fn graph_evaluation_handles_cycles() {
    let mut g: CausaloidGraph<ThresholdFn> = CausaloidGraph::new();
    let a = g.add_causaloid(single(1, 1, 2));
    let b = g.add_causaloid(single(2, 1, 2));
    assert_eq!(g.add_edge(a, b), Ok(()));
    assert_eq!(g.add_edge(b, a), Ok(()));
    assert_eq!(g.add_edge(a, a), Ok(()));
    let x = NumericalValue::ratio(1, 10);
    assert!(matches!(g.evaluate_from(b, &x, AggregationPolicy::Any), Ok(false)));
}

#[test]
fn sub_graph_causaloid_evaluates_reachable_members() {
    let mut g: CausaloidGraph<ThresholdFn> = CausaloidGraph::new();
    let a = g.add_causaloid(single(1, 1, 2));
    let b = g.add_causaloid(single(2, 1, 4));
    let _c = g.add_causaloid(single(3, 100, 1));
    assert_eq!(g.add_edge(a, b), Ok(()));
    let sub = build_causaloid_graph(20, g, a, "graph".to_string()).unwrap();
    assert_eq!(sub.id(), 20);
    assert!(!sub.is_singleton());
    let x = NumericalValue::ratio(6, 10);
    assert!(matches!(sub.verify_collection(&x, AggregationPolicy::All), Ok(true)));
    assert!(matches!(sub.verify_collection(&NumericalValue::ratio(3, 10), AggregationPolicy::All), Ok(false)));
    assert!(matches!(sub.verify_collection(&NumericalValue::ratio(3, 10), AggregationPolicy::Any), Ok(true)));
    assert!(sub.verify_single_cause(&x).is_err());
}

#[test]
fn sub_graph_causaloid_refuses_composite_members() {
    let mut g: CausaloidGraph<ThresholdFn> = CausaloidGraph::new();
    let coll = build_causaloid_collection(9, get_test_causality_coll(), String::new()).unwrap();
    let i = g.add_causaloid(coll);
    assert!(build_causaloid_graph(21, g, i, String::new()).is_err());
    let empty: CausaloidGraph<ThresholdFn> = CausaloidGraph::new();
    let sub = build_causaloid_graph(22, empty, 0, String::new()).unwrap();
    assert!(sub.verify_collection(&NumericalValue::ratio(1, 2), AggregationPolicy::All).is_err());
}
