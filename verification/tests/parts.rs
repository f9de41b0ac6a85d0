use cim_compose::{
    BaseNodeType, BaseRelationshipType, CompositionEdge, CompositionError, CompositionNode,
    CompositionType, EdgeId, GraphComposition, GraphId, GraphParts, Metadata, NodeId,
};
use serde_json::Value as JsonValue;

#[test]
fn parts_give_the_graph_back() {
    let graph = GraphComposition::entity("User", "u-1")
        .add_node(BaseNodeType::Value, "name", JsonValue::from("Ada"))
        .add_node(BaseNodeType::Value, "age", JsonValue::from(36))
        .add_edge_by_label("root", "name", BaseRelationshipType::Contains)
        .add_edge_by_label("root", "age", BaseRelationshipType::Contains);
    let copy = graph.clone();
    let parts = graph.into_parts();
    assert_eq!(parts.id, copy.id());
    assert_eq!(parts.composition_root, copy.composition_root());
    assert_eq!(&parts.composition_type, copy.composition_type());
    assert_eq!(parts.nodes.len(), 3);
    assert_eq!(parts.edges.len(), 2);
    assert_eq!(parts.metadata.name, "User");
    let again = GraphComposition::from_parts(parts).unwrap();
    assert_eq!(again.id(), copy.id());
    assert_eq!(again.composition_root(), copy.composition_root());
    assert_eq!(again.composition_type(), copy.composition_type());
    assert_eq!(again.metadata().name, copy.metadata().name);
    assert_eq!(again.nodes().len(), copy.nodes().len());
    assert_eq!(again.edges().len(), copy.edges().len());
    for (key, node) in copy.nodes() {
        let other = &again.nodes()[key];
        assert_eq!(other.id, node.id);
        assert_eq!(other.node_type, node.node_type);
        assert_eq!(other.label, node.label);
        assert_eq!(other.data, node.data);
    }
    for (key, edge) in copy.edges() {
        let other = &again.edges()[key];
        assert_eq!(other.id, edge.id);
        assert_eq!(other.source, edge.source);
        assert_eq!(other.target, edge.target);
        assert_eq!(other.relationship.relationship_type, edge.relationship.relationship_type);
    }
}

#[test]
fn parts_without_their_root_are_refused() {
    let parts: GraphParts = GraphParts {
        id: GraphId::from_u128(1),
        composition_root: NodeId::from_u128(2),
        composition_type: CompositionType::Composite { structure_type: "G".to_string() },
        nodes: vec![CompositionNode::with_id(
            NodeId::from_u128(3),
            BaseNodeType::Value,
            "n".to_string(),
            JsonValue::Null,
        )],
        edges: Vec::new(),
        metadata: Metadata::new("G"),
    };
    let error = GraphComposition::from_parts(parts).unwrap_err();
    assert_eq!(error, CompositionError::NodeNotFound(NodeId::from_u128(2)));

    let empty: GraphParts = GraphParts {
        id: GraphId::from_u128(1),
        composition_root: NodeId::from_u128(2),
        composition_type: CompositionType::Composite { structure_type: "G".to_string() },
        nodes: Vec::new(),
        edges: Vec::new(),
        metadata: Metadata::new("G"),
    };
    assert!(GraphComposition::from_parts(empty).is_err());
}

#[test]
fn later_parts_replace_earlier_ones() {
    let root = NodeId::from_u128(2);
    let nine = EdgeId::from_u128(9);
    let eight = EdgeId::from_u128(8);
    let parts: GraphParts = GraphParts {
        id: GraphId::from_u128(1),
        composition_root: root,
        composition_type: CompositionType::Atomic { value_type: "V".to_string() },
        nodes: vec![
            CompositionNode::with_id(
                root,
                BaseNodeType::Value,
                "first".to_string(),
                JsonValue::from(1),
            ),
            CompositionNode::with_id(
                root,
                BaseNodeType::Event,
                "second".to_string(),
                JsonValue::from(2),
            ),
        ],
        edges: vec![
            CompositionEdge::with_id(nine, root, root, BaseRelationshipType::Contains),
            CompositionEdge::with_id(nine, root, root, BaseRelationshipType::Choice),
            CompositionEdge::with_id(eight, root, NodeId::from_u128(5), BaseRelationshipType::Sequence),
        ],
        metadata: Metadata::new("V"),
    };
    let graph = GraphComposition::from_parts(parts).unwrap();
    assert_eq!(graph.id(), GraphId::from_u128(1));
    assert_eq!(graph.composition_root(), root);
    assert_eq!(graph.nodes().len(), 1);
    assert_eq!(graph.nodes()[&2].label, "second");
    assert_eq!(graph.edges().len(), 2);
    assert_eq!(graph.edges()[&9].relationship.relationship_type, BaseRelationshipType::Choice);
    assert_eq!(graph.edges()[&8].target, NodeId::from_u128(5));
}
