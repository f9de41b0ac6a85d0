use cim_compose::{
    Annotations, BaseNodeType, BaseRelationshipType, EdgeId, GraphId, Metadata, NodeId,
    Relationship,
};

#[test]
fn test_entity_id_creation() {
    let id1: GraphId = GraphId::new();
    let id2: GraphId = GraphId::new();
    assert_ne!(id1, id2);
}

#[test]
fn test_node_id_is_not_entity() {
    let node1 = NodeId::new();
    let node2 = NodeId::new();
    assert_ne!(node1, node2);
}

#[test]
fn test_base_node_types() {
    let value_node = BaseNodeType::Value;
    assert_eq!(value_node.to_string(), "Value");

    let entity_ref = BaseNodeType::EntityReference;
    assert_eq!(entity_ref.to_string(), "EntityReference");

    let entity_node = BaseNodeType::Entity;
    assert_eq!(entity_node.to_string(), "Entity");
}

#[test]
fn test_relationship_creation() {
    let rel = Relationship::new(BaseRelationshipType::Contains)
        .bidirectional()
        .with_metadata("weight".to_string(), serde_json::Value::from(1.0));

    assert_eq!(rel.relationship_type, BaseRelationshipType::Contains);
    assert!(rel.bidirectional);
    assert_eq!(rel.metadata.get("weight"), Some(&serde_json::Value::from(1.0)));
}

#[test]
fn test_metadata_builder() {
    let metadata = Metadata::new("TestNode")
        .with_description("A test node")
        .with_tag("test")
        .with_tag("example")
        .with_property("priority", serde_json::Value::from(5));

    assert_eq!(metadata.name, "TestNode");
    assert_eq!(metadata.description, Some("A test node".to_string()));
    assert_eq!(metadata.tags.len(), 2);
    assert_eq!(metadata.properties.get("priority"), Some(&serde_json::Value::from(5)));
}

#[test]
fn node_type_texts_cover_every_variant() {
    assert_eq!(BaseNodeType::Aggregate.to_string(), "Aggregate");
    assert_eq!(BaseNodeType::Service.to_string(), "Service");
    assert_eq!(BaseNodeType::Command.to_string(), "Command");
    assert_eq!(BaseNodeType::Event.to_string(), "Event");
    assert_eq!(BaseNodeType::Custom("Stage".to_string()).to_string(), "Custom(Stage)");
    assert_eq!(BaseNodeType::Custom(String::new()).to_string(), "Custom()");
}

#[test]
fn relationship_type_texts_cover_every_variant() {
    assert_eq!(BaseRelationshipType::Contains.to_string(), "Contains");
    assert_eq!(BaseRelationshipType::References.to_string(), "References");
    assert_eq!(BaseRelationshipType::DependsOn.to_string(), "DependsOn");
    assert_eq!(BaseRelationshipType::Sequence.to_string(), "Sequence");
    assert_eq!(BaseRelationshipType::Parallel.to_string(), "Parallel");
    assert_eq!(BaseRelationshipType::Choice.to_string(), "Choice");
    assert_eq!(BaseRelationshipType::Hierarchy.to_string(), "Hierarchy");
    assert_eq!(
        BaseRelationshipType::Custom("manages".to_string()).to_string(),
        "Custom(manages)"
    );
}

#[test]
fn identifier_text_is_the_hyphenated_uuid() {
    let raw = 0xa1a2a3a4_b1b2_c1c2_d1d2_d3d4d5d6d7d8u128;
    assert_eq!(NodeId::from_u128(raw).to_string(), "a1a2a3a4-b1b2-c1c2-d1d2-d3d4d5d6d7d8");
    assert_eq!(EdgeId::from_u128(raw).to_string(), "a1a2a3a4-b1b2-c1c2-d1d2-d3d4d5d6d7d8");
    assert_eq!(GraphId::from_u128(raw).to_string(), "a1a2a3a4-b1b2-c1c2-d1d2-d3d4d5d6d7d8");
    assert_eq!(NodeId::from_u128(0).to_string(), "00000000-0000-0000-0000-000000000000");
    assert_eq!(
        NodeId::from_u128(u128::MAX).to_string(),
        "ffffffff-ffff-ffff-ffff-ffffffffffff"
    );
    assert_eq!(NodeId::from_u128(0x1f).to_string(), "00000000-0000-0000-0000-00000000001f");
}

#[test]
fn identifier_keeps_its_raw_value() {
    assert_eq!(NodeId::from_u128(42).as_u128(), 42);
    assert_eq!(EdgeId::from_u128(7).as_u128(), 7);
    assert_eq!(GraphId::from_u128(9).as_u128(), 9);
    assert_eq!(NodeId::from_u128(42), NodeId::from_u128(42));
    assert_ne!(NodeId::from_u128(42), NodeId::from_u128(43));
}

#[test]
fn fresh_identifiers_are_version_four_uuids() {
    let mask = 0xF000_C000_0000_0000_0000u128;
    let bits = 0x4000_8000_0000_0000_0000u128;
    for _ in 0..32 {
        assert_eq!(NodeId::new().as_u128() & mask, bits);
        assert_eq!(EdgeId::new().as_u128() & mask, bits);
        assert_eq!(GraphId::new().as_u128() & mask, bits);
        assert_eq!(NodeId::default().as_u128() & mask, bits);
        assert_eq!(EdgeId::default().as_u128() & mask, bits);
    }
}

#[test]
fn annotations_replace_and_keep() {
    let map = Annotations::new();
    assert!(map.is_empty());
    assert_eq!(map.len(), 0);
    assert_eq!(map.get("a"), None);
    assert!(!map.contains_key("a"));

    let map = map
        .with_entry("a".to_string(), serde_json::Value::from(1))
        .with_entry("b".to_string(), serde_json::Value::from("two"));
    assert_eq!(map.len(), 2);
    assert!(map.contains_key("a"));
    assert_eq!(map.get("a"), Some(&serde_json::Value::from(1)));
    assert_eq!(map.get("b"), Some(&serde_json::Value::from("two")));
    assert_eq!(map.get("c"), None);

    let map = map.with_entry("a".to_string(), serde_json::Value::Null);
    assert_eq!(map.len(), 2);
    assert_eq!(map.get("a"), Some(&serde_json::Value::Null));
    assert_eq!(map.get("b"), Some(&serde_json::Value::from("two")));
    assert_eq!(map.key_at(0), "a");
    assert_eq!(map.value_at(1), &serde_json::Value::from("two"));

    let copy = map.clone();
    assert_eq!(copy.len(), 2);
    assert_eq!(copy.get("a"), Some(&serde_json::Value::Null));
    assert_eq!(copy.get("b"), Some(&serde_json::Value::from("two")));
}

#[test]
fn relationship_starts_one_way_and_bare() {
    let rel = Relationship::new(BaseRelationshipType::Sequence);
    assert!(!rel.bidirectional);
    assert!(rel.metadata.is_empty());
    let copy = rel.clone();
    assert_eq!(copy.relationship_type, BaseRelationshipType::Sequence);
    assert!(!copy.bidirectional);
}

#[test]
fn metadata_default_is_empty() {
    let metadata = Metadata::default();
    assert_eq!(metadata.name, "");
    assert_eq!(metadata.description, None);
    assert!(metadata.tags.is_empty());
    assert!(metadata.properties.is_empty());

    let named = Metadata::new("N").with_tag("x").with_property("k", serde_json::Value::from(true));
    let copy = named.clone();
    assert_eq!(copy.name, "N");
    assert_eq!(copy.tags, vec!["x".to_string()]);
    assert_eq!(copy.properties.get("k"), Some(&serde_json::Value::from(true)));
}
