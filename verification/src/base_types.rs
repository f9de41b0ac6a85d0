//! The closed universes of node and relationship types, relationships, and
//! the metadata attached to a graph.

use crate::text::join3;
use vstd::pervasive::cloned;
use vstd::prelude::*;

pub use crate::annotations::Annotations;
pub use crate::identifiers::{
    AggregateId, BoundedContextId, EdgeId, EntityId, GraphId, NodeId,
};

verus! {

/// The type of a node.
#[derive(Debug, PartialEq, Eq, Hash)]
pub enum BaseNodeType {
    /// A simple value.
    Value,
    /// A reference to an entity by its identifier.
    EntityReference,
    /// An entity.
    Entity,
    /// An aggregate root.
    Aggregate,
    /// A service.
    Service,
    /// A command.
    Command,
    /// An event.
    Event,
    /// Any other type, by name.
    Custom(String),
}

/// What a node type is, with the name of a custom type as a sequence of
/// characters.
pub enum NodeKind {
    Value,
    EntityReference,
    Entity,
    Aggregate,
    Service,
    Command,
    Event,
    Custom(Seq<char>),
}

impl View for BaseNodeType {
    type V = NodeKind;

    open spec fn view(&self) -> NodeKind {
        match self {
            BaseNodeType::Value => NodeKind::Value,
            BaseNodeType::EntityReference => NodeKind::EntityReference,
            BaseNodeType::Entity => NodeKind::Entity,
            BaseNodeType::Aggregate => NodeKind::Aggregate,
            BaseNodeType::Service => NodeKind::Service,
            BaseNodeType::Command => NodeKind::Command,
            BaseNodeType::Event => NodeKind::Event,
            BaseNodeType::Custom(name) => NodeKind::Custom(name@),
        }
    }
}

impl NodeKind {
    /// The text that stands for the type: the variant's name, and
    /// `Custom(<name>)` for a custom type.
    pub open spec fn text(self) -> Seq<char> {
        match self {
            NodeKind::Value => "Value"@,
            NodeKind::EntityReference => "EntityReference"@,
            NodeKind::Entity => "Entity"@,
            NodeKind::Aggregate => "Aggregate"@,
            NodeKind::Service => "Service"@,
            NodeKind::Command => "Command"@,
            NodeKind::Event => "Event"@,
            NodeKind::Custom(name) => "Custom("@ + name + ")"@,
        }
    }
}

impl Clone for BaseNodeType {
    fn clone(&self) -> (copy: Self)
        ensures
            copy == *self,
    {
        match self {
            BaseNodeType::Value => BaseNodeType::Value,
            BaseNodeType::EntityReference => BaseNodeType::EntityReference,
            BaseNodeType::Entity => BaseNodeType::Entity,
            BaseNodeType::Aggregate => BaseNodeType::Aggregate,
            BaseNodeType::Service => BaseNodeType::Service,
            BaseNodeType::Command => BaseNodeType::Command,
            BaseNodeType::Event => BaseNodeType::Event,
            BaseNodeType::Custom(name) => BaseNodeType::Custom(name.clone()),
        }
    }
}

impl BaseNodeType {
    /// The text that stands for the type.
    pub fn to_string(&self) -> (text: String)
        ensures
            text@ == self@.text(),
    {
        match self {
            BaseNodeType::Value => "Value".to_owned(),
            BaseNodeType::EntityReference => "EntityReference".to_owned(),
            BaseNodeType::Entity => "Entity".to_owned(),
            BaseNodeType::Aggregate => "Aggregate".to_owned(),
            BaseNodeType::Service => "Service".to_owned(),
            BaseNodeType::Command => "Command".to_owned(),
            BaseNodeType::Event => "Event".to_owned(),
            BaseNodeType::Custom(name) => join3("Custom(", name.as_str(), ")"),
        }
    }
}

/// The type of a relationship between two nodes.
#[derive(Debug, PartialEq, Eq, Hash)]
pub enum BaseRelationshipType {
    /// The source contains the target.
    Contains,
    /// The source refers to the target.
    References,
    /// The source depends on the target.
    DependsOn,
    /// The target follows the source.
    Sequence,
    /// The target is one of several branches taken together.
    Parallel,
    /// The target is one of several alternatives.
    Choice,
    /// The target stands below the source.
    Hierarchy,
    /// Any other relationship, by name.
    Custom(String),
}

/// What a relationship type is, with the name of a custom type as a sequence
/// of characters.
pub enum RelationKind {
    Contains,
    References,
    DependsOn,
    Sequence,
    Parallel,
    Choice,
    Hierarchy,
    Custom(Seq<char>),
}

impl View for BaseRelationshipType {
    type V = RelationKind;

    open spec fn view(&self) -> RelationKind {
        match self {
            BaseRelationshipType::Contains => RelationKind::Contains,
            BaseRelationshipType::References => RelationKind::References,
            BaseRelationshipType::DependsOn => RelationKind::DependsOn,
            BaseRelationshipType::Sequence => RelationKind::Sequence,
            BaseRelationshipType::Parallel => RelationKind::Parallel,
            BaseRelationshipType::Choice => RelationKind::Choice,
            BaseRelationshipType::Hierarchy => RelationKind::Hierarchy,
            BaseRelationshipType::Custom(name) => RelationKind::Custom(name@),
        }
    }
}

impl RelationKind {
    /// The text that stands for the type: the variant's name, and
    /// `Custom(<name>)` for a custom type.
    pub open spec fn text(self) -> Seq<char> {
        match self {
            RelationKind::Contains => "Contains"@,
            RelationKind::References => "References"@,
            RelationKind::DependsOn => "DependsOn"@,
            RelationKind::Sequence => "Sequence"@,
            RelationKind::Parallel => "Parallel"@,
            RelationKind::Choice => "Choice"@,
            RelationKind::Hierarchy => "Hierarchy"@,
            RelationKind::Custom(name) => "Custom("@ + name + ")"@,
        }
    }
}

impl Clone for BaseRelationshipType {
    fn clone(&self) -> (copy: Self)
        ensures
            copy == *self,
    {
        match self {
            BaseRelationshipType::Contains => BaseRelationshipType::Contains,
            BaseRelationshipType::References => BaseRelationshipType::References,
            BaseRelationshipType::DependsOn => BaseRelationshipType::DependsOn,
            BaseRelationshipType::Sequence => BaseRelationshipType::Sequence,
            BaseRelationshipType::Parallel => BaseRelationshipType::Parallel,
            BaseRelationshipType::Choice => BaseRelationshipType::Choice,
            BaseRelationshipType::Hierarchy => BaseRelationshipType::Hierarchy,
            BaseRelationshipType::Custom(name) => BaseRelationshipType::Custom(name.clone()),
        }
    }
}

impl BaseRelationshipType {
    /// The text that stands for the type.
    pub fn to_string(&self) -> (text: String)
        ensures
            text@ == self@.text(),
    {
        match self {
            BaseRelationshipType::Contains => "Contains".to_owned(),
            BaseRelationshipType::References => "References".to_owned(),
            BaseRelationshipType::DependsOn => "DependsOn".to_owned(),
            BaseRelationshipType::Sequence => "Sequence".to_owned(),
            BaseRelationshipType::Parallel => "Parallel".to_owned(),
            BaseRelationshipType::Choice => "Choice".to_owned(),
            BaseRelationshipType::Hierarchy => "Hierarchy".to_owned(),
            BaseRelationshipType::Custom(name) => join3("Custom(", name.as_str(), ")"),
        }
    }
}

/// A relationship: its type, its annotations, and whether it also runs from
/// the target back to the source.
#[derive(Debug)]
pub struct Relationship<T = BaseRelationshipType> {
    pub relationship_type: T,
    pub metadata: Annotations,
    pub bidirectional: bool,
}

/// What a relationship holds.
pub struct RelationshipView<T> {
    pub relationship_type: T,
    pub metadata: Map<Seq<char>, serde_json::Value>,
    pub bidirectional: bool,
}

impl<T> View for Relationship<T> {
    type V = RelationshipView<T>;

    open spec fn view(&self) -> RelationshipView<T> {
        RelationshipView {
            relationship_type: self.relationship_type,
            metadata: self.metadata@,
            bidirectional: self.bidirectional,
        }
    }
}

impl<T> Relationship<T> {
    /// A one-way relationship of the given type without annotations.
    pub fn new(relationship_type: T) -> (relationship: Self)
        ensures
            relationship@ == (RelationshipView {
                relationship_type,
                metadata: Map::empty(),
                bidirectional: false,
            }),
    {
        Relationship { relationship_type, metadata: Annotations::new(), bidirectional: false }
    }

    /// The same relationship, running both ways.
    pub fn bidirectional(self) -> (relationship: Self)
        ensures
            relationship@ == (RelationshipView { bidirectional: true, ..self@ }),
    {
        Relationship {
            relationship_type: self.relationship_type,
            metadata: self.metadata,
            bidirectional: true,
        }
    }

    /// The same relationship with `value` under `key` among its annotations.
    pub fn with_metadata(self, key: String, value: serde_json::Value) -> (relationship: Self)
        ensures
            relationship@ == (RelationshipView {
                metadata: self@.metadata.insert(key@, value),
                ..self@
            }),
    {
        Relationship {
            relationship_type: self.relationship_type,
            metadata: self.metadata.with_entry(key, value),
            bidirectional: self.bidirectional,
        }
    }
}

impl<T: Clone> Clone for Relationship<T> {
    /// A relationship with a clone of the type and the same annotations and
    /// direction.
    fn clone(&self) -> (copy: Self)
        ensures
            cloned(self.relationship_type, copy.relationship_type),
            copy@ == (RelationshipView { relationship_type: copy.relationship_type, ..self@ }),
    {
        Relationship {
            relationship_type: self.relationship_type.clone(),
            metadata: self.metadata.clone(),
            bidirectional: self.bidirectional,
        }
    }
}

/// Name, description, tags and properties of a graph.
#[derive(Debug)]
pub struct Metadata {
    pub name: String,
    pub description: Option<String>,
    pub tags: Vec<String>,
    pub properties: Annotations,
}

/// What a `Metadata` holds.
pub struct MetadataView {
    pub name: Seq<char>,
    pub description: Option<Seq<char>>,
    pub tags: Seq<Seq<char>>,
    pub properties: Map<Seq<char>, serde_json::Value>,
}

/// The texts of a list of strings.
pub open spec fn texts(strings: Seq<String>) -> Seq<Seq<char>> {
    Seq::new(strings.len(), |i: int| strings[i]@)
}

impl View for Metadata {
    type V = MetadataView;

    open spec fn view(&self) -> MetadataView {
        MetadataView {
            name: self.name@,
            description: match self.description {
                Some(text) => Some(text@),
                None => None,
            },
            tags: texts(self.tags@),
            properties: self.properties@,
        }
    }
}

impl MetadataView {
    /// The metadata that holds a name and nothing else.
    pub open spec fn named(name: Seq<char>) -> MetadataView {
        MetadataView { name, description: None, tags: Seq::empty(), properties: Map::empty() }
    }
}

impl Metadata {
    /// Metadata with the given name and nothing else.
    pub fn new(name: &str) -> (metadata: Self)
        ensures
            metadata@ == MetadataView::named(name@),
    {
        let metadata = Metadata {
            name: name.to_owned(),
            description: None,
            tags: Vec::new(),
            properties: Annotations::new(),
        };
        assert(metadata@.tags =~= Seq::empty());
        metadata
    }

    /// The same metadata with the given description.
    pub fn with_description(self, description: &str) -> (metadata: Self)
        ensures
            metadata@ == (MetadataView { description: Some(description@), ..self@ }),
    {
        Metadata {
            name: self.name,
            description: Some(description.to_owned()),
            tags: self.tags,
            properties: self.properties,
        }
    }

    /// The same metadata with one more tag at the end.
    pub fn with_tag(self, tag: &str) -> (metadata: Self)
        ensures
            metadata@ == (MetadataView { tags: self@.tags.push(tag@), ..self@ }),
    {
        let mut tags = self.tags;
        tags.push(tag.to_owned());
        let metadata = Metadata {
            name: self.name,
            description: self.description,
            tags,
            properties: self.properties,
        };
        assert(metadata@.tags =~= self@.tags.push(tag@));
        metadata
    }

    /// The same metadata with `value` under `key` among its properties.
    pub fn with_property(self, key: &str, value: serde_json::Value) -> (metadata: Self)
        ensures
            metadata@ == (MetadataView {
                properties: self@.properties.insert(key@, value),
                ..self@
            }),
    {
        Metadata {
            name: self.name,
            description: self.description,
            tags: self.tags,
            properties: self.properties.with_entry(key.to_owned(), value),
        }
    }
}

impl Default for Metadata {
    /// Metadata with an empty name and nothing else.
    fn default() -> (metadata: Self)
        ensures
            metadata@ == MetadataView::named(Seq::empty()),
    {
        let metadata = Metadata {
            name: String::new(),
            description: None,
            tags: Vec::new(),
            properties: Annotations::new(),
        };
        assert(metadata@.tags =~= Seq::empty());
        metadata
    }
}

impl Clone for Metadata {
    fn clone(&self) -> (copy: Self)
        ensures
            copy@ == self@,
    {
        let mut tags: Vec<String> = Vec::new();
        let mut i: usize = 0;
        while i < self.tags.len()
            invariant
                i <= self.tags@.len(),
                tags@.len() == i,
                forall|j: int| 0 <= j < i ==> (#[trigger] tags@[j])@ == self.tags@[j]@,
            decreases self.tags@.len() - i,
        {
            tags.push(self.tags[i].clone());
            i += 1;
        }
        let description = match &self.description {
            Some(text) => Some(text.clone()),
            None => None,
        };
        let copy = Metadata {
            name: self.name.clone(),
            description,
            tags,
            properties: self.properties.clone(),
        };
        assert(copy@.tags =~= self@.tags);
        copy
    }
}

/// Conversion between a domain's own types and the base types.
pub trait DomainMapping<T> {
    /// The base value that stands for `self`.
    fn to_base(&self) -> T;

    /// The domain value that `base` stands for, if there is one.
    fn from_base(base: &T) -> Option<Self> where Self: Sized;
}

} // verus!
