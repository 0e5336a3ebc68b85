use deep_causality::context::BaseContext;
use deep_causality::contextoid::{
    BaseContextoid, ContextoidType, Data, RelationKind, Space, SpaceTime, Time,
};
use deep_causality::errors::ContextIndexError;

fn datoid(id: u64, value: u64) -> BaseContextoid {
    BaseContextoid::new(id, ContextoidType::Datoid(Data { id, data: value }))
}

fn context_with(n: u64) -> BaseContext {
    let mut c = BaseContext::new(1, "base context".to_string());
    for i in 0..n {
        c.add_node(datoid(i, i * 10));
    }
    c
}

#[test]
fn add_node_equal_values_get_distinct_indices() {
    let mut c = BaseContext::new(1, "ctx".to_string());
    let i1 = c.add_node(datoid(7, 42));
    let i2 = c.add_node(datoid(7, 42));
    assert_ne!(i1, i2);
    assert_eq!(c.get_node(i1), Some(&datoid(7, 42)));
    assert_eq!(c.get_node(i2), Some(&datoid(7, 42)));
    assert_eq!(c.node_count(), 2);
}

#[test]
fn add_node_all_kinds() {
    let mut c = BaseContext::new(1, "ctx".to_string());
    let a = c.add_node(BaseContextoid::new(1, ContextoidType::Spaceoid(Space { id: 1, x: 1, y: 2, z: 3 })));
    let b = c.add_node(BaseContextoid::new(2, ContextoidType::Tempoid(Time { id: 2, time_unit: 5 })));
    let d = c.add_node(BaseContextoid::new(3, ContextoidType::SpaceTempoid(SpaceTime { id: 3, x: 1, y: 2, z: 3, t: 4 })));
    assert!(c.contains_node(a) && c.contains_node(b) && c.contains_node(d));
    assert_eq!(c.size(), 3);
}

#[test]
fn lookups_of_absent_index_do_not_fail() {
    let c = context_with(2);
    assert!(!c.contains_node(5));
    assert_eq!(c.get_node(5), None);
    assert!(!c.contains_edge(0, 5));
}

#[test]
fn remove_node_present_and_absent() {
    let mut c = context_with(3);
    assert_eq!(c.remove_node(1), Ok(()));
    assert!(!c.contains_node(1));
    assert_eq!(c.remove_node(1), Err(ContextIndexError::NodeNotFound(1)));
    assert_eq!(c.remove_node(99), Err(ContextIndexError::NodeNotFound(99)));
    assert_eq!(c.node_count(), 2);
}

#[test]
fn indices_are_not_reused_after_removal() {
    let mut c = context_with(3);
    assert_eq!(c.remove_node(2), Ok(()));
    let i = c.add_node(datoid(9, 9));
    assert_eq!(i, 3);
    assert!(!c.contains_node(2));
}

#[test]
fn node_count_tracks_additions_and_removals() {
    let mut c = BaseContext::new(1, "ctx".to_string());
    assert!(c.is_empty());
    let a = c.add_node(datoid(1, 1));
    let b = c.add_node(datoid(2, 2));
    let _ = c.add_node(datoid(3, 3));
    assert_eq!(c.node_count(), 3);
    assert_eq!(c.remove_node(a), Ok(()));
    assert!(c.remove_node(a).is_err());
    assert_eq!(c.remove_node(b), Ok(()));
    assert_eq!(c.node_count(), 1);
    assert_eq!(c.size(), 1);
    assert!(!c.is_empty());
}

#[test]
fn add_edge_checks_a_then_b() {
    let mut c = context_with(2);
    assert_eq!(c.add_edge(7, 1, RelationKind::Datial), Err(ContextIndexError::SourceNotFound(7)));
    assert_eq!(c.add_edge(7, 8, RelationKind::Datial), Err(ContextIndexError::SourceNotFound(7)));
    assert_eq!(c.add_edge(0, 8, RelationKind::Datial), Err(ContextIndexError::TargetNotFound(8)));
    assert_eq!(c.edge_count(), 0);
    assert_eq!(c.add_edge(0, 1, RelationKind::Temporal), Ok(()));
    assert!(c.contains_edge(0, 1));
    assert!(!c.contains_edge(1, 0));
    assert_eq!(c.edge_count(), 1);
}

#[test]
fn add_edge_twice_is_an_edge_failure() {
    let mut c = context_with(2);
    assert_eq!(c.add_edge(0, 1, RelationKind::Spatial), Ok(()));
    assert_eq!(c.add_edge(0, 1, RelationKind::Spatial), Err(ContextIndexError::EdgeFailure(0, 1)));
    assert_eq!(c.edge_count(), 1);
}

#[test]
fn remove_edge_checks_and_removes() {
    let mut c = context_with(3);
    assert_eq!(c.add_edge(0, 1, RelationKind::Datial), Ok(()));
    assert_eq!(c.add_edge(1, 2, RelationKind::SpaceTemporal), Ok(()));
    assert_eq!(c.remove_edge(9, 1), Err(ContextIndexError::SourceNotFound(9)));
    assert_eq!(c.remove_edge(0, 9), Err(ContextIndexError::TargetNotFound(9)));
    assert_eq!(c.remove_edge(0, 2), Err(ContextIndexError::EdgeFailure(0, 2)));
    assert_eq!(c.remove_edge(0, 1), Ok(()));
    assert!(!c.contains_edge(0, 1));
    assert!(c.contains_edge(1, 2));
    assert_eq!(c.edge_count(), 1);
}

#[test]
fn remove_node_drops_its_edges() {
    let mut c = context_with(3);
    assert_eq!(c.add_edge(0, 1, RelationKind::Datial), Ok(()));
    assert_eq!(c.add_edge(1, 2, RelationKind::Datial), Ok(()));
    assert_eq!(c.add_edge(0, 2, RelationKind::Datial), Ok(()));
    assert_eq!(c.remove_node(1), Ok(()));
    assert!(!c.contains_edge(0, 1));
    assert!(!c.contains_edge(1, 2));
    assert!(c.contains_edge(0, 2));
    assert_eq!(c.edge_count(), 1);
}

#[test]
fn format_summary() {
    let mut c = context_with(3);
    assert_eq!(c.add_edge(0, 1, RelationKind::Datial), Ok(()));
    let c2 = BaseContext::new(1234, "weather".to_string());
    assert_eq!(c.format(), "Context: id: 1, name: base context, node_count: 3, edge_count: 1");
    assert_eq!(c2.format(), "Context: id: 1234, name: weather, node_count: 0, edge_count: 0");
    assert_eq!(c2.id(), 1234);
    assert_eq!(c2.name(), "weather");
}

#[test]
fn relation_codes() {
    assert_eq!(RelationKind::Datial.code(), 0);
    assert_eq!(RelationKind::Temporal.code(), 1);
    assert_eq!(RelationKind::Spatial.code(), 2);
    assert_eq!(RelationKind::SpaceTemporal.code(), 3);
}
