use cim_compose::composition::Composable;
use cim_compose::{
    BaseNodeType, BaseRelationshipType, CompositionEdge, CompositionError,
    CompositionNode, CompositionType, DomainCompositionType, EdgeId, GraphComposition,
    GraphFunctor, InvariantSet, NodeId,
};
use serde_json::Value as JsonValue;

fn object(members: Vec<(&str, JsonValue)>) -> JsonValue {
    let mut map = serde_json::Map::new();
    for (key, value) in members {
        map.insert(key.to_string(), value);
    }
    JsonValue::Object(map)
}

fn node_with_label<'a>(graph: &'a GraphComposition, label: &str) -> &'a CompositionNode {
    let mut found = graph.nodes().values().filter(|node| node.label == label);
    let node = found.next().unwrap();
    assert!(found.next().is_none());
    node
}

fn sorted(mut ids: Vec<NodeId>) -> Vec<u128> {
    ids.sort_by_key(|id| id.as_u128());
    ids.into_iter().map(|id| id.as_u128()).collect()
}

#[test]
fn test_atomic_graph_creation() {
    let money = GraphComposition::atomic(
        "Money",
        object(vec![("amount", JsonValue::from(100)), ("currency", JsonValue::from("USD"))]),
    );

    assert_eq!(money.nodes().len(), 1);
    assert_eq!(money.edges().len(), 0);
    assert!(matches!(
        money.composition_type(),
        CompositionType::Atomic { .. }
    ));
}

#[test]
fn test_composite_graph_creation() {
    let address = GraphComposition::composite("Address")
        .add_node(BaseNodeType::Value, "street", JsonValue::from("123 Main St"))
        .add_node(BaseNodeType::Value, "city", JsonValue::from("Springfield"))
        .add_node(BaseNodeType::Value, "zip", JsonValue::from("12345"))
        .add_edge_by_label("root", "street", BaseRelationshipType::Contains)
        .add_edge_by_label("root", "city", BaseRelationshipType::Contains)
        .add_edge_by_label("root", "zip", BaseRelationshipType::Contains);

    assert_eq!(address.nodes().len(), 4); // root + 3 nodes
    assert_eq!(address.edges().len(), 3);
    assert!(matches!(
        address.composition_type(),
        CompositionType::Composite { .. }
    ));
}

#[test]
fn test_entity_creation() {
    let user = GraphComposition::entity("User", "user-123");

    assert_eq!(user.nodes().len(), 1);
    assert!(matches!(
        user.composition_type(),
        CompositionType::Domain(DomainCompositionType::Entity { .. })
    ));

    // Check that the entity has an ID
    let root_node = &user.nodes()[&user.composition_root().as_u128()];
    if let JsonValue::Object(ref map) = root_node.data {
        assert_eq!(map.get("id").unwrap(), "user-123");
    } else {
        panic!("Entity should have object data");
    }
}

#[test]
fn test_sequential_composition() {
    let validate = GraphComposition::composite("ValidateOrder");
    let calculate = GraphComposition::composite("CalculatePricing");

    let workflow = validate.then(&calculate).unwrap();

    // Should have nodes from both graphs plus connections
    assert!(workflow.nodes().len() >= 2);
    assert!(workflow.edges().len() >= 1); // At least one sequence edge
}

#[test]
fn test_parallel_composition() {
    let check_inventory = GraphComposition::composite("CheckInventory");
    let verify_payment = GraphComposition::composite("VerifyPayment");

    let parallel = check_inventory.parallel(&verify_payment).unwrap();

    // Should have a new root connected to both subgraphs
    assert!(parallel.nodes().len() >= 3); // new root + 2 subgraph roots
    assert!(parallel.edges().len() >= 2); // 2 parallel edges
}

#[derive(Debug, Clone, PartialEq)]
enum CustomNode {
    Start,
    Process,
    End,
}

#[derive(Debug, Clone, PartialEq)]
enum CustomRelation {
    Next,
    Error,
}

#[test]
fn test_generic_graph_composition() {
    let graph = GraphComposition::<CustomNode, CustomRelation>::new(
        CustomNode::Start,
        CompositionType::Composite {
            structure_type: "Workflow".to_string(),
        },
    )
    .add_node(CustomNode::Process, "process", object(vec![]))
    .add_node(CustomNode::End, "end", object(vec![]));

    assert_eq!(graph.nodes().len(), 3);
}

#[test]
fn test_functor_map() {
    let graph = GraphComposition::composite("Test")
        .add_node(BaseNodeType::Value, "a", object(vec![("value", JsonValue::from(1))]))
        .add_node(BaseNodeType::Value, "b", object(vec![("value", JsonValue::from(2))]));

    let doubled = graph.fmap(|node| {
        let mut new_node = node.clone();
        if let JsonValue::Object(ref mut map) = new_node.data {
            if let Some(JsonValue::Number(n)) = map.get("value") {
                if let Some(v) = n.as_i64() {
                    map.insert("value".to_string(), JsonValue::from(v * 2));
                }
            }
        }
        new_node
    });

    // Verify values were doubled
    for node in doubled.nodes().values() {
        if let JsonValue::Object(ref map) = node.data {
            if let Some(JsonValue::Number(n)) = map.get("value") {
                let v = n.as_i64().unwrap_or(0);
                assert!(v == 0 || v == 2 || v == 4); // 0 for root, 2 and 4 for doubled values
            }
        }
    }
}

#[test]
fn new_graph_has_a_root_labelled_root() {
    let graph = GraphComposition::<CustomNode, CustomRelation>::new(
        CustomNode::Start,
        CompositionType::Monad { context_type: "Ctx".to_string() },
    );
    assert_eq!(graph.nodes().len(), 1);
    assert_eq!(graph.edges().len(), 0);
    let root = &graph.nodes()[&graph.composition_root().as_u128()];
    assert_eq!(root.id, graph.composition_root());
    assert_eq!(root.label, "root");
    assert_eq!(root.node_type, CustomNode::Start);
    assert_eq!(root.data, object(vec![]));
    assert!(root.metadata.is_empty());
    assert_eq!(
        graph.composition_type(),
        &CompositionType::Monad { context_type: "Ctx".to_string() }
    );
    assert_eq!(graph.metadata().name, "");
    assert_eq!(graph.metadata().description, None);
    assert_ne!(graph.id().as_u128(), graph.composition_root().as_u128());
}

#[test]
fn atomic_holds_its_value() {
    let data = object(vec![("amount", JsonValue::from(100))]);
    let money = GraphComposition::atomic("Money", data.clone());
    let root = &money.nodes()[&money.composition_root().as_u128()];
    assert_eq!(root.node_type, BaseNodeType::Value);
    assert_eq!(root.label, "Money");
    assert_eq!(root.data, data);
    assert_eq!(
        money.composition_type(),
        &CompositionType::Atomic { value_type: "Money".to_string() }
    );
    assert_eq!(money.metadata().name, "Money");
    assert_eq!(money.find_leaves(), vec![money.composition_root()]);
    assert_eq!(money.find_roots(), vec![money.composition_root()]);
}

#[test]
fn composite_root_is_an_empty_aggregate() {
    let graph = GraphComposition::composite("Address");
    let root = &graph.nodes()[&graph.composition_root().as_u128()];
    assert_eq!(root.node_type, BaseNodeType::Aggregate);
    assert_eq!(root.label, "root");
    assert_eq!(root.data, object(vec![]));
    assert_eq!(
        graph.composition_type(),
        &CompositionType::Composite { structure_type: "Address".to_string() }
    );
    assert_eq!(graph.metadata().name, "Address");
}

#[test]
fn entity_scenario() {
    let user = GraphComposition::entity("User", "user-123");
    assert_eq!(user.nodes().len(), 1);
    assert_eq!(user.edges().len(), 0);
    let root = &user.nodes()[&user.composition_root().as_u128()];
    assert_eq!(root.data, object(vec![("id", JsonValue::from("user-123"))]));
    assert_eq!(root.label, "User");
    assert_eq!(root.node_type, BaseNodeType::EntityReference);
    assert_eq!(
        user.composition_type(),
        &CompositionType::Domain(DomainCompositionType::Entity {
            entity_type: "User".to_string()
        })
    );
    assert_eq!(user.metadata().name, "User");
}

#[test]
fn aggregate_scenario() {
    let order = GraphComposition::aggregate("Order", "order-7");
    assert_eq!(order.nodes().len(), 1);
    let root = &order.nodes()[&order.composition_root().as_u128()];
    assert_eq!(root.data, object(vec![("id", JsonValue::from("order-7"))]));
    assert_eq!(root.label, "Order");
    assert_eq!(root.node_type, BaseNodeType::Aggregate);
    assert_eq!(
        order.composition_type(),
        &CompositionType::Domain(DomainCompositionType::Aggregate {
            aggregate_type: "Order".to_string()
        })
    );
}

#[test]
fn address_scenario() {
    let address = GraphComposition::composite("Address")
        .add_node(BaseNodeType::Value, "street", JsonValue::from("123 Main St"))
        .add_edge_by_label("root", "street", BaseRelationshipType::Contains);
    assert_eq!(address.nodes().len(), 2);
    assert_eq!(address.edges().len(), 1);
    let street = node_with_label(&address, "street");
    assert_eq!(street.data, JsonValue::from("123 Main St"));
    assert_eq!(street.node_type, BaseNodeType::Value);
    assert_eq!(address.find_leaves(), vec![street.id]);
    assert_eq!(address.find_roots(), vec![address.composition_root()]);
    let edge = address.edges().values().next().unwrap();
    assert_eq!(edge.source, address.composition_root());
    assert_eq!(edge.target, street.id);
    assert_eq!(edge.relationship.relationship_type, BaseRelationshipType::Contains);
    assert!(!edge.relationship.bidirectional);
    assert!(edge.relationship.metadata.is_empty());
    assert_eq!(address.edges()[&edge.id.as_u128()].id, edge.id);
}

#[test]
fn edge_by_unknown_label_changes_nothing() {
    let graph = GraphComposition::composite("X");
    let id = graph.id();
    let root = graph.composition_root();
    let graph = graph.add_edge_by_label("root", "missing", BaseRelationshipType::Contains);
    assert_eq!(graph.nodes().len(), 1);
    assert_eq!(graph.edges().len(), 0);
    assert_eq!(graph.id(), id);
    assert_eq!(graph.composition_root(), root);
    let graph = graph.add_edge_by_label("missing", "root", BaseRelationshipType::Contains);
    assert_eq!(graph.nodes().len(), 1);
    assert_eq!(graph.edges().len(), 0);
    let graph = graph.add_edge_by_label("missing", "absent", BaseRelationshipType::Contains);
    assert_eq!(graph.edges().len(), 0);
}

#[test]
fn label_root_always_names_the_root() {
    let graph = GraphComposition::atomic("Money", JsonValue::Null);
    let root = graph.composition_root();
    let graph = graph.add_edge_by_label("root", "root", BaseRelationshipType::References);
    assert_eq!(graph.edges().len(), 1);
    let edge = graph.edges().values().next().unwrap();
    assert_eq!(edge.source, root);
    assert_eq!(edge.target, root);
    // the root of an atomic graph carries the label "Money" as well
    let graph = graph.add_edge_by_label("Money", "root", BaseRelationshipType::References);
    assert_eq!(graph.edges().len(), 2);
    assert_eq!(graph.find_leaves(), vec![]);
    assert_eq!(graph.find_roots(), vec![]);
}

#[test]
fn node_with_given_id_overwrites() {
    let id = NodeId::from_u128(17);
    let graph = GraphComposition::composite("G")
        .add_node_with_id(id, BaseNodeType::Value, "first", JsonValue::from(1))
        .add_node_with_id(id, BaseNodeType::Event, "second", JsonValue::from(2));
    assert_eq!(graph.nodes().len(), 2);
    let node = &graph.nodes()[&17];
    assert_eq!(node.id, id);
    assert_eq!(node.label, "second");
    assert_eq!(node.node_type, BaseNodeType::Event);
    assert_eq!(node.data, JsonValue::from(2));
}

#[test]
fn edge_with_given_id_overwrites_and_may_dangle() {
    let a = NodeId::from_u128(1);
    let b = NodeId::from_u128(2);
    let graph = GraphComposition::composite("G")
        .add_edge_with_id(EdgeId::from_u128(5), a, b, BaseRelationshipType::DependsOn)
        .add_edge_with_id(EdgeId::from_u128(5), b, a, BaseRelationshipType::References);
    assert_eq!(graph.nodes().len(), 1);
    assert_eq!(graph.edges().len(), 1);
    let edge = &graph.edges()[&5];
    assert_eq!(edge.id, EdgeId::from_u128(5));
    assert_eq!(edge.source, b);
    assert_eq!(edge.target, a);
    assert_eq!(edge.relationship.relationship_type, BaseRelationshipType::References);
    let graph = graph.add_edge(a, b, BaseRelationshipType::Sequence);
    assert_eq!(graph.edges().len(), 2);
}

#[test]
fn leaves_and_roots_of_a_chain() {
    let a = NodeId::from_u128(1);
    let b = NodeId::from_u128(2);
    let c = NodeId::from_u128(3);
    let graph = GraphComposition::composite("Chain");
    let root = graph.composition_root();
    let graph = graph
        .add_node_with_id(a, BaseNodeType::Value, "a", JsonValue::Null)
        .add_node_with_id(b, BaseNodeType::Value, "b", JsonValue::Null)
        .add_node_with_id(c, BaseNodeType::Value, "c", JsonValue::Null)
        .add_edge(a, b, BaseRelationshipType::Sequence)
        .add_edge(b, c, BaseRelationshipType::Sequence);
    assert_eq!(sorted(graph.find_leaves()), sorted(vec![root, c]));
    assert_eq!(sorted(graph.find_roots()), sorted(vec![root, a]));
}

#[test]
fn connected_nodes_follow_direction() {
    let a = NodeId::from_u128(1);
    let b = NodeId::from_u128(2);
    let c = NodeId::from_u128(3);
    let graph = GraphComposition::composite("G")
        .add_edge_with_id(EdgeId::from_u128(7), a, b, BaseRelationshipType::Contains)
        .add_edge_with_id(EdgeId::from_u128(8), c, a, BaseRelationshipType::Contains);
    assert_eq!(graph.get_connected_nodes(a), vec![b]);
    assert_eq!(graph.get_connected_nodes(b), vec![]);
    assert_eq!(graph.get_connected_nodes(c), vec![a]);
    assert_eq!(graph.get_connected_nodes(NodeId::from_u128(4)), vec![]);
}

#[test]
fn connected_nodes_follow_two_way_edges_back() {
    let a = NodeId::from_u128(1);
    let b = NodeId::from_u128(2);
    let mut two_way =
        CompositionEdge::with_id(EdgeId::from_u128(9), a, b, BaseRelationshipType::References);
    two_way.relationship = two_way.relationship.bidirectional();
    let mut looped =
        CompositionEdge::with_id(EdgeId::from_u128(10), b, b, BaseRelationshipType::References);
    looped.relationship = looped.relationship.bidirectional();
    let mut parts = GraphComposition::composite("G").into_parts();
    parts.edges.push(two_way);
    let graph = GraphComposition::from_parts(parts).unwrap();
    assert_eq!(graph.get_connected_nodes(a), vec![b]);
    assert_eq!(graph.get_connected_nodes(b), vec![a]);

    let mut parts = graph.into_parts();
    parts.edges.clear();
    parts.edges.push(looped);
    let graph = GraphComposition::from_parts(parts).unwrap();
    // an edge from a node to itself that runs both ways is counted in both directions
    assert_eq!(graph.get_connected_nodes(b), vec![b, b]);
    assert_eq!(graph.get_connected_nodes(a), vec![]);
}

#[test]
fn fold_visits_every_node_once() {
    let graph = GraphComposition::composite("G")
        .add_node(BaseNodeType::Value, "a", JsonValue::from(1))
        .add_node(BaseNodeType::Value, "b", JsonValue::from(2));
    let count = graph.fold(0usize, |n, _| n + 1);
    assert_eq!(count, 3);
    let total = graph.fold(0i64, |sum, node| sum + node.data.as_i64().unwrap_or(0));
    assert_eq!(total, 3);
    let mut labels = graph.fold(Vec::new(), |mut labels, node| {
        labels.push(node.label.clone());
        labels
    });
    labels.sort();
    assert_eq!(labels, vec!["a".to_string(), "b".to_string(), "root".to_string()]);
}

#[test]
fn map_nodes_keeps_shape_and_identifiers() {
    let graph = GraphComposition::composite("G")
        .add_node(BaseNodeType::Value, "a", JsonValue::from(1))
        .add_edge_by_label("root", "a", BaseRelationshipType::Contains);
    let id = graph.id();
    let root = graph.composition_root();
    let mut keys: Vec<u128> = graph.nodes().keys().copied().collect();
    keys.sort();
    let edge_id = graph.edges().values().next().unwrap().id;
    let mapped = graph.map_nodes(|node| {
        CompositionNode::with_id(
            NodeId::from_u128(0),
            CustomNode::Process,
            format!("{}!", node.label),
            node.data.clone(),
        )
    });
    assert_eq!(mapped.id(), id);
    assert_eq!(mapped.composition_root(), root);
    assert_eq!(mapped.metadata().name, "G");
    assert_eq!(
        mapped.composition_type(),
        &CompositionType::Composite { structure_type: "G".to_string() }
    );
    let mut mapped_keys: Vec<u128> = mapped.nodes().keys().copied().collect();
    mapped_keys.sort();
    assert_eq!(mapped_keys, keys);
    for (key, node) in mapped.nodes() {
        assert_eq!(node.id.as_u128(), *key);
        assert_eq!(node.node_type, CustomNode::Process);
        assert!(node.label.ends_with('!'));
    }
    assert_eq!(mapped.nodes()[&root.as_u128()].label, "root!");
    assert_eq!(mapped.edges().len(), 1);
    assert_eq!(mapped.edges()[&edge_id.as_u128()].source, root);
}

#[test]
fn fmap_result_has_no_invariants_to_fail() {
    let graph = GraphComposition::composite("G")
        .add_node(BaseNodeType::Value, "a", JsonValue::from(1))
        .add_edge_by_label("root", "a", BaseRelationshipType::Contains);
    let mapped = graph.fmap(|node| node.clone());
    assert_eq!(mapped.nodes().len(), graph.nodes().len());
    assert_eq!(mapped.edges().len(), graph.edges().len());
    assert_eq!(mapped.composition_root(), graph.composition_root());
    assert_eq!(mapped.id(), graph.id());
    let none: InvariantSet<fn(&GraphComposition) -> bool> = InvariantSet::new();
    assert_eq!(none.len(), 0);
    assert_eq!(mapped.check_invariants(&none), Ok(()));
}

#[test]
fn invariants_name_the_first_failure() {
    type Check = Box<dyn Fn(&GraphComposition) -> bool>;
    let graph = GraphComposition::composite("G");
    let mut invariants: InvariantSet<Check> = InvariantSet::new();
    assert_eq!(graph.check_invariants(&invariants), Ok(()));
    invariants = invariants.with_invariant(Box::new(|g: &GraphComposition| g.nodes().len() == 1));
    assert_eq!(graph.check_invariants(&invariants), Ok(()));
    invariants = invariants.with_invariant(Box::new(|g: &GraphComposition| g.edges().len() == 1));
    invariants = invariants.with_invariant(Box::new(|_: &GraphComposition| false));
    assert_eq!(invariants.len(), 3);
    assert_eq!(
        graph.check_invariants(&invariants),
        Err(CompositionError::InvariantViolation("Invariant 1 failed".to_string()))
    );
    let graph = graph.add_edge_by_label("root", "root", BaseRelationshipType::References);
    assert_eq!(
        graph.check_invariants(&invariants),
        Err(CompositionError::InvariantViolation("Invariant 2 failed".to_string()))
    );
}

#[test]
fn invariant_positions_are_written_in_decimal() {
    type Check = Box<dyn Fn(&GraphComposition) -> bool>;
    let graph = GraphComposition::composite("G");
    let mut invariants: InvariantSet<Check> = InvariantSet::new();
    for _ in 0..120 {
        invariants = invariants.with_invariant(Box::new(|_: &GraphComposition| true));
    }
    invariants = invariants.with_invariant(Box::new(|_: &GraphComposition| false));
    assert_eq!(
        graph.check_invariants(&invariants),
        Err(CompositionError::InvariantViolation("Invariant 120 failed".to_string()))
    );
    let first: InvariantSet<Check> =
        InvariantSet::new().with_invariant(Box::new(|_: &GraphComposition| false));
    assert_eq!(
        graph.check_invariants(&first),
        Err(CompositionError::InvariantViolation("Invariant 0 failed".to_string()))
    );
}

#[test]
fn error_messages() {
    assert_eq!(
        CompositionError::IncompatibleTypes("A".to_string(), "B".to_string()).to_string(),
        "Incompatible composition types: A and B"
    );
    assert_eq!(
        CompositionError::InvalidComposition("why".to_string()).to_string(),
        "Invalid composition: why"
    );
    assert_eq!(
        CompositionError::MorphismError("why".to_string()).to_string(),
        "Morphism error: why"
    );
    assert_eq!(CompositionError::FunctorError("why".to_string()).to_string(), "Functor error: why");
    assert_eq!(CompositionError::MonadError("why".to_string()).to_string(), "Monad error: why");
    assert_eq!(
        CompositionError::InvariantViolation("Invariant 3 failed".to_string()).to_string(),
        "Invariant violation: Invariant 3 failed"
    );
    assert_eq!(
        CompositionError::NodeNotFound(NodeId::from_u128(0x1f)).to_string(),
        "Node not found: 00000000-0000-0000-0000-00000000001f"
    );
    assert_eq!(CompositionError::CycleDetected.to_string(), "Cycle detected in composition");
}

#[test]
fn node_fields_and_annotations() {
    let node = CompositionNode::new(BaseNodeType::Value, "n".to_string(), object(vec![]));
    let node = node.with_field("a", JsonValue::from(1)).with_field("b", JsonValue::from(2));
    assert_eq!(node.data, object(vec![("a", JsonValue::from(1)), ("b", JsonValue::from(2))]));
    let node = node.with_field("a", JsonValue::from(3));
    assert_eq!(node.data, object(vec![("a", JsonValue::from(3)), ("b", JsonValue::from(2))]));
    let node = node.with_metadata("k".to_string(), JsonValue::from("v"));
    assert_eq!(node.metadata.get("k"), Some(&JsonValue::from("v")));
    assert_eq!(node.label, "n");

    let plain = CompositionNode::new(BaseNodeType::Value, "p".to_string(), JsonValue::from("text"));
    let id = plain.id;
    let plain = plain.with_field("a", JsonValue::from(1));
    assert_eq!(plain.data, JsonValue::from("text"));
    assert_eq!(plain.id, id);

    let copy = node.clone();
    assert_eq!(copy.id, node.id);
    assert_eq!(copy.data, node.data);
    assert_eq!(copy.label, node.label);
    assert_eq!(copy.node_type, node.node_type);
    assert_eq!(copy.metadata.get("k"), Some(&JsonValue::from("v")));
}

#[test]
fn is_type_looks_at_custom_names_only() {
    let stage = CompositionNode::new(
        BaseNodeType::Custom("Stage".to_string()),
        "s".to_string(),
        JsonValue::Null,
    );
    assert!(stage.is_type("Stage"));
    assert!(!stage.is_type("stage"));
    assert!(!stage.is_type(""));
    let value = CompositionNode::new(BaseNodeType::Value, "v".to_string(), JsonValue::Null);
    assert!(!value.is_type("Value"));
}

#[test]
fn edge_constructors() {
    let a = NodeId::from_u128(1);
    let b = NodeId::from_u128(2);
    let edge = CompositionEdge::new(a, b, BaseRelationshipType::Hierarchy);
    assert_eq!(edge.source, a);
    assert_eq!(edge.target, b);
    assert_eq!(edge.relationship.relationship_type, BaseRelationshipType::Hierarchy);
    assert!(!edge.relationship.bidirectional);
    let other = CompositionEdge::new(a, b, BaseRelationshipType::Hierarchy);
    assert_ne!(edge.id, other.id);
    let copy = edge.clone();
    assert_eq!(copy.id, edge.id);
    assert_eq!(copy.source, a);
    assert_eq!(copy.target, b);
}

#[test]
fn compose_merges_without_connecting() {
    let left = GraphComposition::composite("Left")
        .add_node(BaseNodeType::Value, "a", JsonValue::from(1))
        .add_edge_by_label("root", "a", BaseRelationshipType::Contains);
    let right = GraphComposition::composite("Right")
        .add_node(BaseNodeType::Value, "b", JsonValue::from(2))
        .add_edge_by_label("root", "b", BaseRelationshipType::Contains);
    assert!(left.can_compose_with(&right));
    let merged = left.compose(&right).unwrap();
    assert_eq!(merged.id(), left.id());
    assert_eq!(merged.composition_root(), left.composition_root());
    assert_eq!(merged.metadata().name, "Left");
    assert_eq!(merged.nodes().len(), 4);
    assert_eq!(merged.edges().len(), 2);
    for key in left.nodes().keys().chain(right.nodes().keys()) {
        assert!(merged.nodes().contains_key(key));
    }
    let b = node_with_label(&merged, "b");
    assert_eq!(b.data, JsonValue::from(2));
}

#[test]
fn compose_prefers_the_second_graph_on_collision() {
    let shared = NodeId::from_u128(77);
    let left = GraphComposition::composite("Left")
        .add_node_with_id(shared, BaseNodeType::Value, "left", JsonValue::from(1))
        .add_edge_with_id(EdgeId::from_u128(5), shared, shared, BaseRelationshipType::Contains);
    let right = GraphComposition::composite("Right")
        .add_node_with_id(shared, BaseNodeType::Event, "right", JsonValue::from(2))
        .add_edge_with_id(EdgeId::from_u128(5), shared, shared, BaseRelationshipType::Choice);
    let merged = left.compose(&right).unwrap();
    assert_eq!(merged.nodes().len(), 3);
    assert_eq!(merged.nodes()[&77].label, "right");
    assert_eq!(merged.nodes()[&77].node_type, BaseNodeType::Event);
    assert_eq!(merged.edges().len(), 1);
    assert_eq!(merged.edges()[&5].relationship.relationship_type, BaseRelationshipType::Choice);
    let merged = right.compose(&left).unwrap();
    assert_eq!(merged.nodes()[&77].label, "left");
}

#[test]
fn clone_holds_the_same_graph() {
    let graph = GraphComposition::entity("User", "u-1")
        .add_node(BaseNodeType::Value, "name", JsonValue::from("Ada"))
        .add_edge_by_label("root", "name", BaseRelationshipType::Contains);
    let copy = graph.clone();
    assert_eq!(copy.id(), graph.id());
    assert_eq!(copy.composition_root(), graph.composition_root());
    assert_eq!(copy.composition_type(), graph.composition_type());
    assert_eq!(copy.metadata().name, graph.metadata().name);
    assert_eq!(copy.nodes().len(), 2);
    assert_eq!(copy.edges().len(), 1);
    for (key, node) in graph.nodes() {
        let other = &copy.nodes()[key];
        assert_eq!(other.id, node.id);
        assert_eq!(other.label, node.label);
        assert_eq!(other.data, node.data);
        assert_eq!(other.node_type, node.node_type);
    }
}

#[test]
fn a_label_shared_by_two_nodes_names_one_of_them() {
    let first = NodeId::from_u128(1);
    let second = NodeId::from_u128(2);
    let graph = GraphComposition::composite("G")
        .add_node_with_id(first, BaseNodeType::Value, "twin", JsonValue::from(1))
        .add_node_with_id(second, BaseNodeType::Value, "twin", JsonValue::from(2))
        .add_edge_by_label("root", "twin", BaseRelationshipType::Contains);
    graph.well_formed();
    assert_eq!(graph.nodes().len(), 3);
    assert_eq!(graph.edges().len(), 1);
    let edge = graph.edges().values().next().unwrap();
    assert_eq!(edge.source, graph.composition_root());
    assert!(edge.target == first || edge.target == second);
}

#[test]
fn a_node_labelled_root_is_not_what_the_label_root_names() {
    let other = NodeId::from_u128(1);
    let graph = GraphComposition::atomic("Money", JsonValue::Null)
        .add_node_with_id(other, BaseNodeType::Value, "root", JsonValue::Null)
        .add_edge_by_label("root", "root", BaseRelationshipType::References);
    let edge = graph.edges().values().next().unwrap();
    assert_eq!(edge.source, graph.composition_root());
    assert_eq!(edge.target, graph.composition_root());
}

#[test]
fn nodes_and_edges_are_found_by_identifier() {
    let a = NodeId::from_u128(1);
    let graph = GraphComposition::composite("G")
        .add_node_with_id(a, BaseNodeType::Value, "a", JsonValue::from(1))
        .add_edge_with_id(
            EdgeId::from_u128(5),
            a,
            NodeId::from_u128(2),
            BaseRelationshipType::DependsOn,
        );
    assert_eq!(graph.node_count(), 2);
    assert_eq!(graph.edge_count(), 1);
    assert_eq!(graph.node(a).unwrap().label, "a");
    assert_eq!(graph.node(graph.composition_root()).unwrap().label, "root");
    assert!(graph.node(NodeId::from_u128(2)).is_none());
    assert_eq!(graph.edge(EdgeId::from_u128(5)).unwrap().source, a);
    assert!(graph.edge(EdgeId::from_u128(6)).is_none());
}

#[test]
fn metadata_can_be_replaced() {
    let graph = GraphComposition::composite("G");
    let id = graph.id();
    let root = graph.composition_root();
    let graph = graph.with_metadata(
        cim_compose::Metadata::new("Renamed").with_description("about").with_tag("t"),
    );
    assert_eq!(graph.metadata().name, "Renamed");
    assert_eq!(graph.metadata().description, Some("about".to_string()));
    assert_eq!(graph.metadata().tags, vec!["t".to_string()]);
    assert_eq!(graph.id(), id);
    assert_eq!(graph.composition_root(), root);
    assert_eq!(graph.node_count(), 1);
    assert_eq!(
        graph.composition_type(),
        &CompositionType::Composite { structure_type: "G".to_string() }
    );
}
