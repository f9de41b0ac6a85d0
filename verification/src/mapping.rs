//! Mapping between the names that a domain uses for node and relationship
//! types and the base types.

use crate::base_types::{BaseNodeType, BaseRelationshipType, NodeKind, RelationKind};
use crate::text::{join2, same_text};
use vstd::prelude::*;

verus! {

/// A mapping that failed, with the reason.
#[derive(Debug)]
pub struct MappingError {
    message: String,
}

impl MappingError {
    /// The reason, as a sequence of characters.
    pub closed spec fn reason(&self) -> Seq<char> {
        self.message@
    }

    /// The error with the given reason.
    pub fn new(message: String) -> (error: Self)
        ensures
            error.reason() == message@,
    {
        MappingError { message }
    }

    /// The message of the error: `Mapping error: ` and the reason.
    pub fn to_string(&self) -> (text: String)
        ensures
            text@ == "Mapping error: "@ + self.reason(),
    {
        join2("Mapping error: ", self.message.as_str())
    }
}

impl Clone for MappingError {
    fn clone(&self) -> (copy: Self)
        ensures
            copy.reason() == self.reason(),
    {
        MappingError { message: self.message.clone() }
    }
}

/// The node type that a domain's name stands for: one of the known names, or
/// else the custom type of that name.
pub open spec fn node_kind_of(name: Seq<char>) -> NodeKind {
    if name == "value"@ || name == "value_object"@ {
        NodeKind::Value
    } else if name == "entity_reference"@ {
        NodeKind::EntityReference
    } else if name == "aggregate"@ {
        NodeKind::Aggregate
    } else if name == "service"@ {
        NodeKind::Service
    } else if name == "event"@ {
        NodeKind::Event
    } else if name == "command"@ {
        NodeKind::Command
    } else {
        NodeKind::Custom(name)
    }
}

/// The name that a domain uses for a node type; a custom type goes by its own
/// name.
pub open spec fn node_kind_name(kind: NodeKind) -> Seq<char> {
    match kind {
        NodeKind::Value => "value_object"@,
        NodeKind::EntityReference => "entity_reference"@,
        NodeKind::Entity => "entity"@,
        NodeKind::Aggregate => "aggregate"@,
        NodeKind::Service => "service"@,
        NodeKind::Event => "event"@,
        NodeKind::Command => "command"@,
        NodeKind::Custom(name) => name,
    }
}

/// Mapping of node types.
pub struct DomainNodeMapping;

impl DomainNodeMapping {
    /// The node type that a domain's name stands for.
    pub fn from_string(type_str: &str) -> (node_type: BaseNodeType)
        ensures
            node_type@ == node_kind_of(type_str@),
    {
        if same_text(type_str, "value") || same_text(type_str, "value_object") {
            BaseNodeType::Value
        } else if same_text(type_str, "entity_reference") {
            BaseNodeType::EntityReference
        } else if same_text(type_str, "aggregate") {
            BaseNodeType::Aggregate
        } else if same_text(type_str, "service") {
            BaseNodeType::Service
        } else if same_text(type_str, "event") {
            BaseNodeType::Event
        } else if same_text(type_str, "command") {
            BaseNodeType::Command
        } else {
            BaseNodeType::Custom(type_str.to_owned())
        }
    }

    /// The name that a domain uses for a node type.
    pub fn to_string(node_type: &BaseNodeType) -> (name: String)
        ensures
            name@ == node_kind_name(node_type@),
    {
        match node_type {
            BaseNodeType::Value => "value_object".to_owned(),
            BaseNodeType::EntityReference => "entity_reference".to_owned(),
            BaseNodeType::Entity => "entity".to_owned(),
            BaseNodeType::Aggregate => "aggregate".to_owned(),
            BaseNodeType::Service => "service".to_owned(),
            BaseNodeType::Event => "event".to_owned(),
            BaseNodeType::Command => "command".to_owned(),
            BaseNodeType::Custom(name) => name.clone(),
        }
    }
}

/// The relationship type that a domain's name stands for: one of the known
/// names, or else the custom type of that name.
pub open spec fn relation_kind_of(name: Seq<char>) -> RelationKind {
    if name == "contains"@ {
        RelationKind::Contains
    } else if name == "references"@ {
        RelationKind::References
    } else if name == "depends_on"@ {
        RelationKind::DependsOn
    } else if name == "sequence"@ {
        RelationKind::Sequence
    } else if name == "parallel"@ {
        RelationKind::Parallel
    } else if name == "choice"@ {
        RelationKind::Choice
    } else {
        RelationKind::Custom(name)
    }
}

/// The name that a domain uses for a relationship type; a custom type goes by
/// its own name.
pub open spec fn relation_kind_name(kind: RelationKind) -> Seq<char> {
    match kind {
        RelationKind::Contains => "contains"@,
        RelationKind::References => "references"@,
        RelationKind::DependsOn => "depends_on"@,
        RelationKind::Sequence => "sequence"@,
        RelationKind::Parallel => "parallel"@,
        RelationKind::Choice => "choice"@,
        RelationKind::Hierarchy => "hierarchy"@,
        RelationKind::Custom(name) => name,
    }
}

/// Mapping of relationship types.
pub struct DomainRelationshipMapping;

impl DomainRelationshipMapping {
    /// The relationship type that a domain's name stands for.
    pub fn from_string(type_str: &str) -> (relationship_type: BaseRelationshipType)
        ensures
            relationship_type@ == relation_kind_of(type_str@),
    {
        if same_text(type_str, "contains") {
            BaseRelationshipType::Contains
        } else if same_text(type_str, "references") {
            BaseRelationshipType::References
        } else if same_text(type_str, "depends_on") {
            BaseRelationshipType::DependsOn
        } else if same_text(type_str, "sequence") {
            BaseRelationshipType::Sequence
        } else if same_text(type_str, "parallel") {
            BaseRelationshipType::Parallel
        } else if same_text(type_str, "choice") {
            BaseRelationshipType::Choice
        } else {
            BaseRelationshipType::Custom(type_str.to_owned())
        }
    }

    /// The name that a domain uses for a relationship type.
    pub fn to_string(rel_type: &BaseRelationshipType) -> (name: String)
        ensures
            name@ == relation_kind_name(rel_type@),
    {
        match rel_type {
            BaseRelationshipType::Contains => "contains".to_owned(),
            BaseRelationshipType::References => "references".to_owned(),
            BaseRelationshipType::DependsOn => "depends_on".to_owned(),
            BaseRelationshipType::Sequence => "sequence".to_owned(),
            BaseRelationshipType::Parallel => "parallel".to_owned(),
            BaseRelationshipType::Choice => "choice".to_owned(),
            BaseRelationshipType::Hierarchy => "hierarchy".to_owned(),
            BaseRelationshipType::Custom(name) => name.clone(),
        }
    }
}

/// Types that can be turned into a domain's type and made from one.
pub trait DomainMappable<T> {
    /// What a failed mapping gives.
    type Error;

    /// The domain value that stands for `self`.
    fn to_domain(&self) -> Result<T, Self::Error>;

    /// The value that `domain` stands for.
    fn from_domain(domain: T) -> Result<Self, Self::Error> where Self: Sized;
}

} // verus!
