//! Nodes and edges of a composition graph.

use crate::annotations::Annotations;
use crate::base_types::{BaseNodeType, BaseRelationshipType, Relationship, RelationshipView};
use crate::identifiers::{is_random_uuid, EdgeId, NodeId};
use crate::json::{json_object, with_member};
use crate::text::same_text;
use vstd::pervasive::cloned;
use vstd::prelude::*;

verus! {

/// A node: an identifier, a type, a label, a JSON value and annotations.
///
/// Labels need not be unique within a graph.
#[derive(Debug)]
pub struct CompositionNode<N = BaseNodeType> {
    pub id: NodeId,
    pub node_type: N,
    pub label: String,
    pub data: serde_json::Value,
    pub metadata: Annotations,
}

/// What a node holds.
pub struct NodeView<N> {
    pub id: u128,
    pub node_type: N,
    pub label: Seq<char>,
    pub data: serde_json::Value,
    pub metadata: Map<Seq<char>, serde_json::Value>,
}

impl<N> NodeView<N> {
    /// The node without annotations that holds the given parts.
    pub open spec fn plain(
        id: u128,
        node_type: N,
        label: Seq<char>,
        data: serde_json::Value,
    ) -> Self {
        NodeView { id, node_type, label, data, metadata: Map::empty() }
    }

    /// Whether `copy` is this node with a clone of its type in place of the
    /// type.
    pub open spec fn copied_to(self, copy: NodeView<N>) -> bool where N: Clone {
        &&& cloned(self.node_type, copy.node_type)
        &&& copy == (NodeView { node_type: copy.node_type, ..self })
    }
}

impl<N> View for CompositionNode<N> {
    type V = NodeView<N>;

    open spec fn view(&self) -> NodeView<N> {
        NodeView {
            id: self.id.0,
            node_type: self.node_type,
            label: self.label@,
            data: self.data,
            metadata: self.metadata@,
        }
    }
}

impl<N> CompositionNode<N> {
    /// A node with a fresh identifier and no annotations.
    pub fn new(node_type: N, label: String, data: serde_json::Value) -> (node: Self)
        ensures
            is_random_uuid(node@.id),
            node@ == NodeView::plain(node@.id, node_type, label@, data),
    {
        CompositionNode { id: NodeId::new(), node_type, label, data, metadata: Annotations::new() }
    }

    /// A node with the given identifier and no annotations.
    pub fn with_id(id: NodeId, node_type: N, label: String, data: serde_json::Value) -> (node: Self)
        ensures
            node@ == NodeView::plain(id.0, node_type, label@, data),
    {
        CompositionNode { id, node_type, label, data, metadata: Annotations::new() }
    }

    /// The same node with `value` under `key` among its annotations.
    pub fn with_metadata(self, key: String, value: serde_json::Value) -> (node: Self)
        ensures
            node@ == (NodeView { metadata: self@.metadata.insert(key@, value), ..self@ }),
    {
        CompositionNode {
            id: self.id,
            node_type: self.node_type,
            label: self.label,
            data: self.data,
            metadata: self.metadata.with_entry(key, value),
        }
    }

    /// The same node with the member `field` of its data set to `value`, where
    /// the data is a JSON object; the same node where it is not.
    pub fn with_field(self, field: &str, value: serde_json::Value) -> (node: Self)
        ensures
            json_object(self@.data) is None ==> node@ == self@,
            json_object(self@.data) matches Some(members) ==> {
                &&& json_object(node@.data) == Some(members.insert(field@, value))
                &&& node@ == (NodeView { data: node@.data, ..self@ })
            },
    {
        if self.data.is_object() {
            CompositionNode {
                id: self.id,
                node_type: self.node_type,
                label: self.label,
                data: with_member(self.data, field.to_owned(), value),
                metadata: self.metadata,
            }
        } else {
            self
        }
    }
}

impl CompositionNode<BaseNodeType> {
    /// Whether the node has the custom type called `name`.
    pub fn is_type(&self, name: &str) -> (yes: bool)
        ensures
            yes == (self.node_type@ == crate::base_types::NodeKind::Custom(name@)),
    {
        match &self.node_type {
            BaseNodeType::Custom(custom) => same_text(custom.as_str(), name),
            _ => false,
        }
    }
}

impl<N: Clone> Clone for CompositionNode<N> {
    /// A node with a clone of the type and the same identifier, label, data and
    /// annotations.
    fn clone(&self) -> (copy: Self)
        ensures
            self@.copied_to(copy@),
    {
        CompositionNode {
            id: self.id,
            node_type: self.node_type.clone(),
            label: self.label.clone(),
            data: self.data.clone(),
            metadata: self.metadata.clone(),
        }
    }
}

/// An edge: an identifier, the nodes it runs between, and a relationship.
///
/// Neither end needs to name a node of the graph that holds the edge.
#[derive(Debug)]
pub struct CompositionEdge<R = BaseRelationshipType> {
    pub id: EdgeId,
    pub source: NodeId,
    pub target: NodeId,
    pub relationship: Relationship<R>,
}

/// What an edge holds.
pub struct EdgeView<R> {
    pub id: u128,
    pub source: u128,
    pub target: u128,
    pub relationship: RelationshipView<R>,
}

impl<R> EdgeView<R> {
    /// The one-way edge without annotations that holds the given parts.
    pub open spec fn plain(id: u128, source: u128, target: u128, relationship_type: R) -> Self {
        EdgeView {
            id,
            source,
            target,
            relationship: RelationshipView {
                relationship_type,
                metadata: Map::empty(),
                bidirectional: false,
            },
        }
    }

    /// Whether `copy` is this edge with a clone of its relationship type in
    /// place of the type.
    pub open spec fn copied_to(self, copy: EdgeView<R>) -> bool where R: Clone {
        &&& cloned(self.relationship.relationship_type, copy.relationship.relationship_type)
        &&& copy == (EdgeView {
            relationship: RelationshipView {
                relationship_type: copy.relationship.relationship_type,
                ..self.relationship
            },
            ..self
        })
    }
}

impl<R> View for CompositionEdge<R> {
    type V = EdgeView<R>;

    open spec fn view(&self) -> EdgeView<R> {
        EdgeView {
            id: self.id.0,
            source: self.source.0,
            target: self.target.0,
            relationship: self.relationship@,
        }
    }
}

impl<R> CompositionEdge<R> {
    /// A one-way edge with a fresh identifier and no annotations.
    pub fn new(source: NodeId, target: NodeId, relationship_type: R) -> (edge: Self)
        ensures
            is_random_uuid(edge@.id),
            edge@ == EdgeView::plain(edge@.id, source.0, target.0, relationship_type),
    {
        CompositionEdge {
            id: EdgeId::new(),
            source,
            target,
            relationship: Relationship::new(relationship_type),
        }
    }

    /// A one-way edge with the given identifier and no annotations.
    pub fn with_id(id: EdgeId, source: NodeId, target: NodeId, relationship_type: R) -> (edge: Self)
        ensures
            edge@ == EdgeView::plain(id.0, source.0, target.0, relationship_type),
    {
        CompositionEdge { id, source, target, relationship: Relationship::new(relationship_type) }
    }
}

impl<R: Clone> Clone for CompositionEdge<R> {
    /// An edge with a clone of the relationship type and the same identifier,
    /// ends, annotations and direction.
    fn clone(&self) -> (copy: Self)
        ensures
            self@.copied_to(copy@),
    {
        CompositionEdge {
            id: self.id,
            source: self.source,
            target: self.target,
            relationship: self.relationship.clone(),
        }
    }
}

/// A clone of a base node type is that type: a copy of a node of the base
/// universe holds what the node holds.
pub proof fn lemma_base_node_copy(node: NodeView<BaseNodeType>, copy: NodeView<BaseNodeType>)
    requires
        node.copied_to(copy),
    ensures
        copy == node,
{
}

/// A clone of a base relationship type is that type: a copy of an edge of the
/// base universe holds what the edge holds.
pub proof fn lemma_base_edge_copy(
    edge: EdgeView<BaseRelationshipType>,
    copy: EdgeView<BaseRelationshipType>,
)
    requires
        edge.copied_to(copy),
    ensures
        copy == edge,
{
}

} // verus!
