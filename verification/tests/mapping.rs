use cim_compose::{
    BaseNodeType, BaseRelationshipType, DomainNodeMapping, DomainRelationshipMapping,
    MappingError,
};

#[test]
fn test_node_type_mapping() {
    assert!(matches!(
        DomainNodeMapping::from_string("entity_reference"),
        BaseNodeType::EntityReference
    ));
    assert!(matches!(
        DomainNodeMapping::from_string("custom_type"),
        BaseNodeType::Custom(_)
    ));
}

#[test]
fn test_relationship_type_mapping() {
    assert!(matches!(
        DomainRelationshipMapping::from_string("contains"),
        BaseRelationshipType::Contains
    ));
    assert!(matches!(
        DomainRelationshipMapping::from_string("custom_rel"),
        BaseRelationshipType::Custom(_)
    ));
}

#[test]
fn node_names_map_to_their_types() {
    assert_eq!(DomainNodeMapping::from_string("value"), BaseNodeType::Value);
    assert_eq!(DomainNodeMapping::from_string("value_object"), BaseNodeType::Value);
    assert_eq!(DomainNodeMapping::from_string("aggregate"), BaseNodeType::Aggregate);
    assert_eq!(DomainNodeMapping::from_string("service"), BaseNodeType::Service);
    assert_eq!(DomainNodeMapping::from_string("event"), BaseNodeType::Event);
    assert_eq!(DomainNodeMapping::from_string("command"), BaseNodeType::Command);
    assert_eq!(
        DomainNodeMapping::from_string("custom_type"),
        BaseNodeType::Custom("custom_type".to_string())
    );
    assert_eq!(DomainNodeMapping::from_string(""), BaseNodeType::Custom(String::new()));
    assert_eq!(
        DomainNodeMapping::from_string("Value"),
        BaseNodeType::Custom("Value".to_string())
    );
    assert_eq!(
        DomainNodeMapping::from_string("entity"),
        BaseNodeType::Custom("entity".to_string())
    );
}

#[test]
fn node_types_map_to_their_names() {
    assert_eq!(DomainNodeMapping::to_string(&BaseNodeType::Value), "value_object");
    assert_eq!(
        DomainNodeMapping::to_string(&BaseNodeType::EntityReference),
        "entity_reference"
    );
    assert_eq!(DomainNodeMapping::to_string(&BaseNodeType::Entity), "entity");
    assert_eq!(DomainNodeMapping::to_string(&BaseNodeType::Aggregate), "aggregate");
    assert_eq!(DomainNodeMapping::to_string(&BaseNodeType::Service), "service");
    assert_eq!(DomainNodeMapping::to_string(&BaseNodeType::Event), "event");
    assert_eq!(DomainNodeMapping::to_string(&BaseNodeType::Command), "command");
    assert_eq!(
        DomainNodeMapping::to_string(&BaseNodeType::Custom("stage".to_string())),
        "stage"
    );
}

#[test]
fn relationship_names_map_to_their_types() {
    assert_eq!(
        DomainRelationshipMapping::from_string("references"),
        BaseRelationshipType::References
    );
    assert_eq!(
        DomainRelationshipMapping::from_string("depends_on"),
        BaseRelationshipType::DependsOn
    );
    assert_eq!(
        DomainRelationshipMapping::from_string("sequence"),
        BaseRelationshipType::Sequence
    );
    assert_eq!(
        DomainRelationshipMapping::from_string("parallel"),
        BaseRelationshipType::Parallel
    );
    assert_eq!(DomainRelationshipMapping::from_string("choice"), BaseRelationshipType::Choice);
    assert_eq!(
        DomainRelationshipMapping::from_string("custom_rel"),
        BaseRelationshipType::Custom("custom_rel".to_string())
    );
    assert_eq!(
        DomainRelationshipMapping::from_string("hierarchy"),
        BaseRelationshipType::Custom("hierarchy".to_string())
    );
}

#[test]
fn relationship_types_map_to_their_names() {
    assert_eq!(DomainRelationshipMapping::to_string(&BaseRelationshipType::Contains), "contains");
    assert_eq!(
        DomainRelationshipMapping::to_string(&BaseRelationshipType::References),
        "references"
    );
    assert_eq!(
        DomainRelationshipMapping::to_string(&BaseRelationshipType::DependsOn),
        "depends_on"
    );
    assert_eq!(DomainRelationshipMapping::to_string(&BaseRelationshipType::Sequence), "sequence");
    assert_eq!(DomainRelationshipMapping::to_string(&BaseRelationshipType::Parallel), "parallel");
    assert_eq!(DomainRelationshipMapping::to_string(&BaseRelationshipType::Choice), "choice");
    assert_eq!(
        DomainRelationshipMapping::to_string(&BaseRelationshipType::Hierarchy),
        "hierarchy"
    );
    assert_eq!(
        DomainRelationshipMapping::to_string(&BaseRelationshipType::Custom("x".to_string())),
        "x"
    );
}

#[test]
fn names_of_known_types_map_back() {
    for node_type in [
        BaseNodeType::Value,
        BaseNodeType::EntityReference,
        BaseNodeType::Aggregate,
        BaseNodeType::Service,
        BaseNodeType::Event,
        BaseNodeType::Command,
    ] {
        let name = DomainNodeMapping::to_string(&node_type);
        assert_eq!(DomainNodeMapping::from_string(&name), node_type);
    }
    for rel_type in [
        BaseRelationshipType::Contains,
        BaseRelationshipType::References,
        BaseRelationshipType::DependsOn,
        BaseRelationshipType::Sequence,
        BaseRelationshipType::Parallel,
        BaseRelationshipType::Choice,
    ] {
        let name = DomainRelationshipMapping::to_string(&rel_type);
        assert_eq!(DomainRelationshipMapping::from_string(&name), rel_type);
    }
}

#[test]
fn mapping_error_message() {
    let error = MappingError::new("no such type".to_string());
    assert_eq!(error.to_string(), "Mapping error: no such type");
    assert_eq!(error.clone().to_string(), "Mapping error: no such type");
}
