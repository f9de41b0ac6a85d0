//! Composable graphs: every domain concept is a typed graph, and graphs are
//! combined into larger graphs by a small algebra.
//!
//! - [`identifiers`]: the identifier spaces.
//! - [`json`], [`annotations`], [`text`]: JSON values, string-keyed maps of
//!   them, and helpers on strings.
//! - [`base_types`], [`node`]: node and relationship types, relationships,
//!   metadata, nodes and edges.
//! - [`composition`]: the graph, its construction and its queries.
//! - [`algebra`]: the named constructors and the composition operators.
//! - [`invariants`]: predicates over graphs, checked on demand.
//! - [`steps`], [`plan`], [`parts`]: graphs built from lists of steps, from
//!   plans written as plain data, and from their own parts.
//! - [`mapping`], [`domain_compositions`]: names of a domain's types, graphs
//!   of domain objects, and the knowledge graph.
//! - [`model`]: what a graph holds, and what each operation is on that.
//! - [`laws`]: what holds of the operators when fresh identifiers are new.

pub mod algebra;
pub mod annotations;
pub mod base_types;
pub mod composition;
pub mod domain_compositions;
pub mod identifiers;
pub mod invariants;
pub mod json;
pub mod laws;
pub mod mapping;
pub mod model;
pub mod node;
pub mod parts;
pub mod plan;
pub mod steps;
pub mod text;

pub use algebra::{GraphFunctor, GraphMonad, GraphMorphism};
pub use annotations::Annotations;
pub use base_types::{
    BaseNodeType, BaseRelationshipType, DomainMapping, Metadata, Relationship,
};
pub use composition::{
    CompositionError, CompositionType, DomainCompositionType, GraphComposition,
};
pub use identifiers::{
    AggregateId, AggregateMarker, BoundedContextId, BoundedContextMarker, CommandMarker, EdgeId,
    EntityId, EntityMarker, EventMarker, GraphId, GraphMarker, NodeId, QueryMarker,
    ServiceMarker, ValueObjectMarker,
};
pub use invariants::InvariantSet;
pub use domain_compositions::{
    compose_knowledge_graph, create_agent_network, create_conceptual_space_viz,
    create_org_hierarchy, create_processing_pipeline, knowledge_graph_of, Composable,
    Decomposable,
};
pub use mapping::{DomainMappable, DomainNodeMapping, DomainRelationshipMapping, MappingError};
pub use node::{CompositionEdge, CompositionNode};
pub use parts::GraphParts;
pub use plan::{MemberValue, PlannedStep};
pub use steps::GraphStep;
