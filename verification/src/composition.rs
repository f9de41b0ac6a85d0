//! The composition graph: construction and queries.

use crate::base_types::{BaseNodeType, BaseRelationshipType, Metadata, MetadataView};
use crate::identifiers::{is_random_uuid, raw_ids, uuid_text, EdgeId, GraphId, NodeId};
use crate::json::{empty_object, is_empty_object};
use crate::model::{
    edge_views, edges_keyed, node_views, nodes_keyed, CompositionKind, DomainKind, GraphView,
};
use crate::node::{EdgeView, NodeView};
use crate::text::{join2, join3, same_text};
use std::collections::HashMap;
use vstd::prelude::*;
use vstd::std_specs::iter::IteratorSpec;

pub use crate::algebra::{Composable, GraphFunctor, GraphMonad, GraphMorphism};
pub use crate::invariants::InvariantSet;
pub use crate::node::{CompositionEdge, CompositionNode};

verus! {

broadcast use vstd::std_specs::hash::group_hash_axioms;

/// What can go wrong when graphs are composed.
#[derive(Debug, PartialEq)]
pub enum CompositionError {
    /// Two composition types that do not go together.
    IncompatibleTypes(String, String),
    /// A composition that is not valid, with the reason.
    InvalidComposition(String),
    /// A morphism failed, with the reason.
    MorphismError(String),
    /// A functor failed, with the reason.
    FunctorError(String),
    /// A monad failed, with the reason.
    MonadError(String),
    /// An invariant does not hold, with a message that names it.
    InvariantViolation(String),
    /// No node has the identifier.
    NodeNotFound(NodeId),
    /// The composition would hold a cycle.
    CycleDetected,
}

impl Clone for CompositionError {
    fn clone(&self) -> (copy: Self)
        ensures
            copy == *self,
    {
        match self {
            CompositionError::IncompatibleTypes(first, second) => {
                CompositionError::IncompatibleTypes(first.clone(), second.clone())
            },
            CompositionError::InvalidComposition(reason) => CompositionError::InvalidComposition(
                reason.clone(),
            ),
            CompositionError::MorphismError(reason) => CompositionError::MorphismError(
                reason.clone(),
            ),
            CompositionError::FunctorError(reason) => CompositionError::FunctorError(
                reason.clone(),
            ),
            CompositionError::MonadError(reason) => CompositionError::MonadError(reason.clone()),
            CompositionError::InvariantViolation(reason) => CompositionError::InvariantViolation(
                reason.clone(),
            ),
            CompositionError::NodeNotFound(id) => CompositionError::NodeNotFound(*id),
            CompositionError::CycleDetected => CompositionError::CycleDetected,
        }
    }
}

impl CompositionError {
    /// The message of the error, as a sequence of characters.
    pub open spec fn message(self) -> Seq<char> {
        match self {
            CompositionError::IncompatibleTypes(first, second) => {
                "Incompatible composition types: "@ + first@ + " and "@ + second@
            },
            CompositionError::InvalidComposition(reason) => "Invalid composition: "@ + reason@,
            CompositionError::MorphismError(reason) => "Morphism error: "@ + reason@,
            CompositionError::FunctorError(reason) => "Functor error: "@ + reason@,
            CompositionError::MonadError(reason) => "Monad error: "@ + reason@,
            CompositionError::InvariantViolation(reason) => "Invariant violation: "@ + reason@,
            CompositionError::NodeNotFound(id) => "Node not found: "@ + uuid_text(id.0),
            CompositionError::CycleDetected => "Cycle detected in composition"@,
        }
    }

    /// The message of the error.
    pub fn to_string(&self) -> (text: String)
        ensures
            text@ == self.message(),
    {
        match self {
            CompositionError::IncompatibleTypes(first, second) => {
                let head = join3("Incompatible composition types: ", first.as_str(), " and ");
                join2(head.as_str(), second.as_str())
            },
            CompositionError::InvalidComposition(reason) => join2(
                "Invalid composition: ",
                reason.as_str(),
            ),
            CompositionError::MorphismError(reason) => join2("Morphism error: ", reason.as_str()),
            CompositionError::FunctorError(reason) => join2("Functor error: ", reason.as_str()),
            CompositionError::MonadError(reason) => join2("Monad error: ", reason.as_str()),
            CompositionError::InvariantViolation(reason) => join2(
                "Invariant violation: ",
                reason.as_str(),
            ),
            CompositionError::NodeNotFound(id) => {
                let id_text = id.to_string();
                join2("Node not found: ", id_text.as_str())
            },
            CompositionError::CycleDetected => "Cycle detected in composition".to_owned(),
        }
    }
}

/// How a graph was produced. No operation depends on it.
#[derive(Debug, PartialEq)]
pub enum CompositionType {
    /// A single node without edges: a value.
    Atomic { value_type: String },
    /// Several nodes and edges: a structure.
    Composite { structure_type: String },
    /// A map from one graph to another.
    Functor { source_type: String, target_type: String },
    /// A computation in a context.
    Monad { context_type: String },
    /// A concept of the domain.
    Domain(DomainCompositionType),
}

/// The concept of the domain that a graph stands for.
#[derive(Debug, PartialEq)]
pub enum DomainCompositionType {
    Entity { entity_type: String },
    ValueObject { value_type: String },
    Aggregate { aggregate_type: String },
    Service { service_type: String },
    Event { event_type: String },
    Command { command_type: String },
    BoundedContext { domain: String },
}

impl View for DomainCompositionType {
    type V = DomainKind;

    open spec fn view(&self) -> DomainKind {
        match self {
            DomainCompositionType::Entity { entity_type } => DomainKind::Entity {
                entity_type: entity_type@,
            },
            DomainCompositionType::ValueObject { value_type } => DomainKind::ValueObject {
                value_type: value_type@,
            },
            DomainCompositionType::Aggregate { aggregate_type } => DomainKind::Aggregate {
                aggregate_type: aggregate_type@,
            },
            DomainCompositionType::Service { service_type } => DomainKind::Service {
                service_type: service_type@,
            },
            DomainCompositionType::Event { event_type } => DomainKind::Event {
                event_type: event_type@,
            },
            DomainCompositionType::Command { command_type } => DomainKind::Command {
                command_type: command_type@,
            },
            DomainCompositionType::BoundedContext { domain } => DomainKind::BoundedContext {
                domain: domain@,
            },
        }
    }
}

impl Clone for DomainCompositionType {
    fn clone(&self) -> (copy: Self)
        ensures
            copy == *self,
    {
        match self {
            DomainCompositionType::Entity { entity_type } => DomainCompositionType::Entity {
                entity_type: entity_type.clone(),
            },
            DomainCompositionType::ValueObject { value_type } => {
                DomainCompositionType::ValueObject { value_type: value_type.clone() }
            },
            DomainCompositionType::Aggregate { aggregate_type } => {
                DomainCompositionType::Aggregate { aggregate_type: aggregate_type.clone() }
            },
            DomainCompositionType::Service { service_type } => DomainCompositionType::Service {
                service_type: service_type.clone(),
            },
            DomainCompositionType::Event { event_type } => DomainCompositionType::Event {
                event_type: event_type.clone(),
            },
            DomainCompositionType::Command { command_type } => DomainCompositionType::Command {
                command_type: command_type.clone(),
            },
            DomainCompositionType::BoundedContext { domain } => {
                DomainCompositionType::BoundedContext { domain: domain.clone() }
            },
        }
    }
}

impl View for CompositionType {
    type V = CompositionKind;

    open spec fn view(&self) -> CompositionKind {
        match self {
            CompositionType::Atomic { value_type } => CompositionKind::Atomic {
                value_type: value_type@,
            },
            CompositionType::Composite { structure_type } => CompositionKind::Composite {
                structure_type: structure_type@,
            },
            CompositionType::Functor { source_type, target_type } => CompositionKind::Functor {
                source_type: source_type@,
                target_type: target_type@,
            },
            CompositionType::Monad { context_type } => CompositionKind::Monad {
                context_type: context_type@,
            },
            CompositionType::Domain(domain) => CompositionKind::Domain(domain@),
        }
    }
}

impl Clone for CompositionType {
    fn clone(&self) -> (copy: Self)
        ensures
            copy == *self,
    {
        match self {
            CompositionType::Atomic { value_type } => CompositionType::Atomic {
                value_type: value_type.clone(),
            },
            CompositionType::Composite { structure_type } => CompositionType::Composite {
                structure_type: structure_type.clone(),
            },
            CompositionType::Functor { source_type, target_type } => CompositionType::Functor {
                source_type: source_type.clone(),
                target_type: target_type.clone(),
            },
            CompositionType::Monad { context_type } => CompositionType::Monad {
                context_type: context_type.clone(),
            },
            CompositionType::Domain(domain) => CompositionType::Domain(domain.clone()),
        }
    }
}

/// A graph that stands for one concept of a domain: a root node, further
/// nodes, and edges between nodes.
///
/// Nodes and edges are kept under the raw values of their identifiers. The
/// root is always one of the nodes.
#[derive(Debug)]
pub struct GraphComposition<N = BaseNodeType, R = BaseRelationshipType> {
    id: GraphId,
    composition_root: NodeId,
    composition_type: CompositionType,
    nodes: HashMap<u128, CompositionNode<N>>,
    edges: HashMap<u128, CompositionEdge<R>>,
    metadata: Metadata,
}

impl<N, R> View for GraphComposition<N, R> {
    type V = GraphView<N, R>;

    closed spec fn view(&self) -> GraphView<N, R> {
        GraphView {
            id: self.id.value,
            root: self.composition_root.0,
            composition_type: self.composition_type@,
            nodes: node_views(self.nodes@),
            edges: edge_views(self.edges@),
            metadata: self.metadata@,
        }
    }
}

impl<N, R> GraphComposition<N, R> {
    #[verifier::type_invariant]
    spec fn inv(self) -> bool {
        &&& self.nodes@.contains_key(self.composition_root.0)
        &&& nodes_keyed(self.nodes@)
        &&& edges_keyed(self.edges@)
    }

    /// The nodes as they are kept, each under the raw value of its identifier.
    pub closed spec fn node_map(&self) -> Map<u128, CompositionNode<N>> {
        self.nodes@
    }

    /// The edges as they are kept, each under the raw value of its identifier.
    pub closed spec fn edge_map(&self) -> Map<u128, CompositionEdge<R>> {
        self.edges@
    }

    /// What a graph holds is what the nodes and edges that it keeps hold.
    pub proof fn lemma_kept(self)
        ensures
            self@.nodes == node_views(self.node_map()),
            self@.edges == edge_views(self.edge_map()),
            self@.nodes.dom() == self.node_map().dom(),
            self@.edges.dom() == self.edge_map().dom(),
    {
        assert(self@.nodes.dom() =~= self.nodes@.dom());
        assert(self@.edges.dom() =~= self.edges@.dom());
    }

    /// The invariant of the graph is the invariant of what it holds.
    proof fn lemma_well_formed(self)
        requires
            self.inv(),
        ensures
            self@.well_formed(),
            self@.nodes.dom() == self.nodes@.dom(),
            self@.edges.dom() == self.edges@.dom(),
    {
        assert(self@.nodes.dom() =~= self.nodes@.dom());
        assert(self@.edges.dom() =~= self.edges@.dom());
    }

    /// The graph made of the given parts.
    pub(crate) fn assemble(
        id: GraphId,
        composition_root: NodeId,
        composition_type: CompositionType,
        nodes: HashMap<u128, CompositionNode<N>>,
        edges: HashMap<u128, CompositionEdge<R>>,
        metadata: Metadata,
    ) -> (graph: Self)
        requires
            nodes@.contains_key(composition_root.0),
            nodes_keyed(nodes@),
            edges_keyed(edges@),
        ensures
            graph@ == (GraphView {
                id: id.value,
                root: composition_root.0,
                composition_type: composition_type@,
                nodes: node_views(nodes@),
                edges: edge_views(edges@),
                metadata: metadata@,
            }),
            graph@.well_formed(),
            graph.node_map() == nodes@,
            graph.edge_map() == edges@,
    {
        let graph = GraphComposition {
            id,
            composition_root,
            composition_type,
            nodes,
            edges,
            metadata,
        };
        proof {
            graph.lemma_well_formed();
        }
        graph
    }

    /// The parts that the graph is made of.
    pub(crate) fn into_maps(self) -> (parts: (
        GraphId,
        NodeId,
        CompositionType,
        HashMap<u128, CompositionNode<N>>,
        HashMap<u128, CompositionEdge<R>>,
        Metadata,
    ))
        ensures
            self@.well_formed(),
            parts.0.value == self@.id,
            parts.1.0 == self@.root,
            parts.2@ == self@.composition_type,
            node_views(parts.3@) == self@.nodes,
            nodes_keyed(parts.3@),
            edge_views(parts.4@) == self@.edges,
            edges_keyed(parts.4@),
            parts.5@ == self@.metadata,
    {
        proof {
            use_type_invariant(&self);
            self.lemma_well_formed();
        }
        (
            self.id,
            self.composition_root,
            self.composition_type,
            self.nodes,
            self.edges,
            self.metadata,
        )
    }

    /// The graph of one node, its root, and no edge.
    pub(crate) fn rooted(
        id: GraphId,
        root: CompositionNode<N>,
        composition_type: CompositionType,
        metadata: Metadata,
    ) -> (graph: Self)
        ensures
            graph@ == GraphView::<N, R>::rooted(id.value, root@, composition_type@, metadata@),
            graph@.well_formed(),
    {
        let root_id = root.id;
        let ghost root_view = root@;
        let mut nodes: HashMap<u128, CompositionNode<N>> = HashMap::new();
        nodes.insert(root_id.0, root);
        let edges: HashMap<u128, CompositionEdge<R>> = HashMap::new();
        proof {
            assert(node_views(nodes@) =~= Map::empty().insert(root_view.id, root_view));
            assert(edge_views(edges@) =~= Map::empty());
        }
        Self::assemble(id, root_id, composition_type, nodes, edges, metadata)
    }

    /// A graph with a fresh identifier and a fresh root node of the given
    /// type, labelled `root`, whose data is the empty JSON object.
    pub fn new(root_type: N, composition_type: CompositionType) -> (graph: Self)
        ensures
            graph@.well_formed(),
            is_random_uuid(graph@.id),
            is_random_uuid(graph@.root),
            is_empty_object(graph@.nodes[graph@.root].data),
            graph@ == GraphView::<N, R>::rooted(
                graph@.id,
                NodeView::plain(graph@.root, root_type, "root"@, graph@.nodes[graph@.root].data),
                composition_type@,
                MetadataView::named(Seq::empty()),
            ),
    {
        let root = CompositionNode::new(root_type, "root".to_owned(), empty_object());
        Self::rooted(GraphId::new(), root, composition_type, Metadata::default())
    }

    /// Makes the invariant of the graph known where it is needed in a proof;
    /// does nothing when the program runs.
    pub fn well_formed(&self)
        ensures
            self@.well_formed(),
    {
        proof {
            use_type_invariant(self);
            self.lemma_well_formed();
        }
    }

    /// The identifier of the graph.
    pub fn id(&self) -> (id: GraphId)
        ensures
            id.value == self@.id,
    {
        self.id
    }

    /// The identifier of the root node.
    pub fn composition_root(&self) -> (root: NodeId)
        ensures
            root.0 == self@.root,
            self@.nodes.contains_key(root.0),
    {
        proof {
            use_type_invariant(self);
            self.lemma_well_formed();
        }
        self.composition_root
    }

    /// How the graph was produced.
    pub fn composition_type(&self) -> (composition_type: &CompositionType)
        ensures
            composition_type@ == self@.composition_type,
    {
        &self.composition_type
    }

    /// The nodes, each under the raw value of its identifier.
    pub fn nodes(&self) -> (nodes: &HashMap<u128, CompositionNode<N>>)
        ensures
            nodes@ == self.node_map(),
            node_views(nodes@) == self@.nodes,
            nodes_keyed(nodes@),
            self@.well_formed(),
    {
        proof {
            use_type_invariant(self);
            self.lemma_well_formed();
        }
        &self.nodes
    }

    /// The edges, each under the raw value of its identifier.
    pub fn edges(&self) -> (edges: &HashMap<u128, CompositionEdge<R>>)
        ensures
            edges@ == self.edge_map(),
            edge_views(edges@) == self@.edges,
            edges_keyed(edges@),
            self@.well_formed(),
    {
        proof {
            use_type_invariant(self);
            self.lemma_well_formed();
        }
        &self.edges
    }

    /// Name, description, tags and properties of the graph.
    pub fn metadata(&self) -> (metadata: &Metadata)
        ensures
            metadata@ == self@.metadata,
    {
        &self.metadata
    }

    /// The number of nodes.
    pub fn node_count(&self) -> (n: usize)
        ensures
            n == self@.nodes.len(),
            n >= 1,
    {
        proof {
            use_type_invariant(self);
            self.lemma_well_formed();
            assert(self@.nodes.len() >= 1) by {
                if self@.nodes.len() == 0 {
                    assert(self@.nodes.dom() =~= Set::empty());
                }
            }
        }
        self.nodes.len()
    }

    /// The number of edges.
    pub fn edge_count(&self) -> (n: usize)
        ensures
            n == self@.edges.len(),
    {
        proof {
            use_type_invariant(self);
            self.lemma_well_formed();
        }
        self.edges.len()
    }

    /// The node with the given identifier, if there is one.
    pub fn node(&self, id: NodeId) -> (found: Option<&CompositionNode<N>>)
        ensures
            match found {
                Some(node) => self@.nodes.contains_key(id.0) && node@ == self@.nodes[id.0],
                None => !self@.nodes.contains_key(id.0),
            },
    {
        proof {
            use_type_invariant(self);
            self.lemma_well_formed();
        }
        self.nodes.get(&id.0)
    }

    /// The edge with the given identifier, if there is one.
    pub fn edge(&self, id: EdgeId) -> (found: Option<&CompositionEdge<R>>)
        ensures
            match found {
                Some(edge) => self@.edges.contains_key(id.0) && edge@ == self@.edges[id.0],
                None => !self@.edges.contains_key(id.0),
            },
    {
        proof {
            use_type_invariant(self);
            self.lemma_well_formed();
        }
        self.edges.get(&id.0)
    }

    /// The graph with the given metadata in place of its own.
    pub fn with_metadata(self, metadata: Metadata) -> (graph: Self)
        ensures
            graph@ == (GraphView { metadata: metadata@, ..self@ }),
            graph@.well_formed(),
    {
        proof {
            use_type_invariant(&self);
        }
        Self::assemble(
            self.id,
            self.composition_root,
            self.composition_type,
            self.nodes,
            self.edges,
            metadata,
        )
    }

    /// The graph with one more node, which has the given identifier; a node
    /// that was there under it is replaced.
    pub fn add_node_with_id(
        self,
        id: NodeId,
        node_type: N,
        label: &str,
        data: serde_json::Value,
    ) -> (graph: Self)
        ensures
            graph@ == self@.with_node(NodeView::plain(id.0, node_type, label@, data)),
            graph@.well_formed(),
    {
        proof {
            use_type_invariant(&self);
        }
        let node = CompositionNode::with_id(id, node_type, label.to_owned(), data);
        let ghost view = node@;
        let ghost before = self.nodes@;
        let mut nodes = self.nodes;
        nodes.insert(id.0, node);
        proof {
            assert(node_views(nodes@) =~= node_views(before).insert(view.id, view));
        }
        Self::assemble(
            self.id,
            self.composition_root,
            self.composition_type,
            nodes,
            self.edges,
            self.metadata,
        )
    }

    /// The graph with one more node, which has a fresh identifier.
    pub fn add_node(self, node_type: N, label: &str, data: serde_json::Value) -> (graph: Self)
        ensures
            self@.node_added(graph@, node_type, label@, data),
            graph@.well_formed(),
    {
        let id = NodeId::new();
        let graph = self.add_node_with_id(id, node_type, label, data);
        assert(graph@ == self@.with_node(NodeView::plain(id.0, node_type, label@, data)));
        graph
    }

    /// The graph with one more edge, which has the given identifier; an edge
    /// that was there under it is replaced. Neither end needs to be a node of
    /// the graph.
    pub fn add_edge_with_id(
        self,
        id: EdgeId,
        source: NodeId,
        target: NodeId,
        relationship: R,
    ) -> (graph: Self)
        ensures
            graph@ == self@.with_edge(EdgeView::plain(id.0, source.0, target.0, relationship)),
            graph@.well_formed(),
    {
        proof {
            use_type_invariant(&self);
        }
        let edge = CompositionEdge::with_id(id, source, target, relationship);
        let ghost view = edge@;
        let ghost before = self.edges@;
        let mut edges = self.edges;
        edges.insert(id.0, edge);
        proof {
            assert(edge_views(edges@) =~= edge_views(before).insert(view.id, view));
        }
        Self::assemble(
            self.id,
            self.composition_root,
            self.composition_type,
            self.nodes,
            edges,
            self.metadata,
        )
    }

    /// The graph with one more edge, which has a fresh identifier. Neither end
    /// needs to be a node of the graph.
    pub fn add_edge(self, source: NodeId, target: NodeId, relationship: R) -> (graph: Self)
        ensures
            self@.edge_added(graph@, source.0, target.0, relationship),
            graph@.well_formed(),
    {
        let id = EdgeId::new();
        let graph = self.add_edge_with_id(id, source, target, relationship);
        assert(graph@ == self@.with_edge(
            EdgeView::plain(id.0, source.0, target.0, relationship),
        ));
        graph
    }

    /// A node that the label stands for, if there is one: the root for the
    /// label `root`, and otherwise the first node that carries the label, in
    /// the order in which the map of nodes is walked.
    fn resolve_label(&self, label: &str) -> (found: Option<NodeId>)
        ensures
            match found {
                Some(id) => self@.labelled(label@).contains(id.0),
                None => !self@.resolves(label@),
            },
    {
        proof {
            use_type_invariant(self);
            self.lemma_well_formed();
        }
        if same_text(label, "root") {
            return Some(self.composition_root);
        }
        let ghost all = self.nodes.keys().remaining();
        for k in it: self.nodes.keys()
            invariant
                it.seq() == all,
                all.unref().to_set() == self.nodes@.dom(),
                label@ != "root"@,
                self@.nodes == node_views(self.nodes@),
                forall|j: int| 0 <= j < it.index() ==> self.nodes@[*all[j]].label@ != label@,
        {
            assert(all.unref()[it.index()] == *k);
            assert(all.unref().to_set().contains(*k));
            match self.nodes.get(k) {
                Some(node) => {
                    if same_text(node.label.as_str(), label) {
                        assert(self@.nodes.contains_key(*k));
                        return Some(NodeId(*k));
                    }
                },
                None => {},
            }
        }
        proof {
            assert forall|k: u128| !self@.labelled(label@).contains(k) by {
                if self@.nodes.contains_key(k) {
                    assert(all.unref().to_set().contains(k));
                    let j = choose|j: int| 0 <= j < all.unref().len() && all.unref()[j] == k;
                    assert(*all[j] == k);
                }
            }
        }
        None
    }

    /// The graph with one more edge between two nodes given by their labels.
    ///
    /// The label `root` stands for the root; any other label stands for a node
    /// that carries it. Where one of the labels stands for no node, the graph
    /// stays as it is.
    pub fn add_edge_by_label(
        self,
        source_label: &str,
        target_label: &str,
        relationship: R,
    ) -> (graph: Self)
        ensures
            graph@.well_formed(),
            self@.edge_added_by_label(graph@, source_label@, target_label@, relationship),
    {
        proof {
            use_type_invariant(&self);
            self.lemma_well_formed();
        }
        let source = self.resolve_label(source_label);
        let target = self.resolve_label(target_label);
        match (source, target) {
            (Some(source), Some(target)) => {
                let ghost before = self@;
                let graph = self.add_edge(source, target, relationship);
                proof {
                    assert(before.labelled(source_label@).contains(source.0));
                    assert(before.labelled(target_label@).contains(target.0));
                    assert(before.edge_added(graph@, source.0, target.0, relationship));
                }
                graph
            },
            _ => self,
        }
    }

    /// Whether some edge reaches the node `k` (`incoming`) or leaves it (not
    /// `incoming`).
    fn has_edge_at(&self, k: u128, incoming: bool) -> (yes: bool)
        ensures
            yes == if incoming {
                self@.has_incoming(k)
            } else {
                self@.has_outgoing(k)
            },
    {
        let ghost all = self.edges.keys().remaining();
        for e in it: self.edges.keys()
            invariant
                it.seq() == all,
                all.unref().to_set() == self.edges@.dom(),
                self@.edges == edge_views(self.edges@),
                forall|j: int|
                    0 <= j < it.index() ==> (if incoming {
                        self.edges@[*all[j]].target.0
                    } else {
                        self.edges@[*all[j]].source.0
                    }) != k,
        {
            assert(all.unref()[it.index()] == *e);
            assert(all.unref().to_set().contains(*e));
            match self.edges.get(e) {
                Some(edge) => {
                    let end = if incoming {
                        edge.target
                    } else {
                        edge.source
                    };
                    if end.0 == k {
                        assert(self@.edges.contains_key(*e));
                        return true;
                    }
                },
                None => {},
            }
        }
        proof {
            assert forall|e: u128| #[trigger] self@.edges.contains_key(e) implies (if incoming {
                self@.edges[e].target
            } else {
                self@.edges[e].source
            }) != k by {
                assert(all.unref().to_set().contains(e));
                let j = choose|j: int| 0 <= j < all.unref().len() && all.unref()[j] == e;
                assert(*all[j] == e);
            }
        }
        false
    }

    /// The nodes that no edge reaches (`incoming`) or that no edge leaves (not
    /// `incoming`), each once, in the order in which the map of nodes is
    /// walked.
    fn nodes_without_edge(&self, incoming: bool) -> (found: Vec<NodeId>)
        ensures
            found@.no_duplicates(),
            forall|id: NodeId|
                found@.contains(id) <==> (if incoming {
                    self@.root_ids()
                } else {
                    self@.leaf_ids()
                }).contains(id.0),
    {
        proof {
            use_type_invariant(self);
            self.lemma_well_formed();
        }
        let ghost linked = |k: u128|
            if incoming {
                self@.has_incoming(k)
            } else {
                self@.has_outgoing(k)
            };
        let mut found: Vec<NodeId> = Vec::new();
        let ghost all = self.nodes.keys().remaining();
        for k in it: self.nodes.keys()
            invariant
                it.seq() == all,
                all.no_duplicates(),
                all.unref().to_set() == self.nodes@.dom(),
                self@.nodes.dom() == self.nodes@.dom(),
                found@.no_duplicates(),
                forall|k: u128|
                    linked(k) == if incoming {
                        self@.has_incoming(k)
                    } else {
                        self@.has_outgoing(k)
                    },
                forall|id: NodeId|
                    found@.contains(id) <==> exists|j: int|
                        0 <= j < it.index() && #[trigger] all.unref()[j] == id.0 && !linked(id.0),
        {
            let ghost before = found@;
            assert(all.unref()[it.index()] == *k);
            if !self.has_edge_at(*k, incoming) {
                proof {
                    if before.contains(NodeId(*k)) {
                        let j = choose|j: int|
                            0 <= j < it.index() && #[trigger] all.unref()[j] == *k;
                        assert(*all[j] == *all[it.index()]);
                    }
                }
                found.push(NodeId(*k));
                proof {
                    assert forall|id: NodeId| found@.contains(id) <==> exists|j: int|
                        0 <= j < it.index() + 1 && #[trigger] all.unref()[j] == id.0 && !linked(
                            id.0,
                        ) by {
                        if found@.contains(id) {
                            let i = choose|i: int| 0 <= i < found@.len() && found@[i] == id;
                            if i < before.len() {
                                assert(before[i] == id);
                                assert(before.contains(id));
                            } else {
                                assert(all.unref()[it.index()] == id.0);
                            }
                        }
                        if exists|j: int|
                            0 <= j < it.index() + 1 && #[trigger] all.unref()[j] == id.0
                                && !linked(id.0) {
                            let j = choose|j: int|
                                0 <= j < it.index() + 1 && #[trigger] all.unref()[j] == id.0
                                    && !linked(id.0);
                            if j < it.index() {
                                assert(before.contains(id));
                                let i = choose|i: int| 0 <= i < before.len() && before[i] == id;
                                assert(found@[i] == id);
                            } else {
                                assert(found@[before.len() as int] == id);
                            }
                        }
                    }
                }
            }
        }
        proof {
            assert forall|id: NodeId| found@.contains(id) <==> (if incoming {
                self@.root_ids()
            } else {
                self@.leaf_ids()
            }).contains(id.0) by {
                if found@.contains(id) {
                    let j = choose|j: int|
                        0 <= j < all.len() && #[trigger] all.unref()[j] == id.0 && !linked(id.0);
                    assert(all.unref().to_set().contains(all.unref()[j]));
                }
                if self@.nodes.contains_key(id.0) && !linked(id.0) {
                    assert(all.unref().to_set().contains(id.0));
                    let j = choose|j: int| 0 <= j < all.unref().len() && all.unref()[j] == id.0;
                    assert(all.unref()[j] == id.0);
                }
            }
        }
        found
    }

    /// The nodes that no edge leaves, each once, in no particular order.
    pub fn find_leaves(&self) -> (leaves: Vec<NodeId>)
        ensures
            leaves@.no_duplicates(),
            forall|id: NodeId| leaves@.contains(id) <==> self@.leaf_ids().contains(id.0),
    {
        self.nodes_without_edge(false)
    }

    /// The nodes that no edge reaches, each once, in no particular order.
    pub fn find_roots(&self) -> (roots: Vec<NodeId>)
        ensures
            roots@.no_duplicates(),
            forall|id: NodeId| roots@.contains(id) <==> self@.root_ids().contains(id.0),
    {
        self.nodes_without_edge(true)
    }

    /// The neighbours of a node: for each edge, in the order in which the map
    /// of edges is walked, its target where it leaves the node, and its source
    /// where it runs both ways and reaches the node.
    pub fn get_connected_nodes(&self, node_id: NodeId) -> (connected: Vec<NodeId>)
        ensures
            exists|order: Seq<u128>|
                {
                    &&& order.no_duplicates()
                    &&& order.to_set() == self@.edges.dom()
                    &&& raw_ids(connected@) == #[trigger] self@.neighbours_along(order, node_id.0)
                },
    {
        proof {
            use_type_invariant(self);
            self.lemma_well_formed();
        }
        let mut connected: Vec<NodeId> = Vec::new();
        let ghost all = self.edges.keys().remaining();
        proof {
            assert(raw_ids(connected@) =~= self@.neighbours_along(all.unref().take(0), node_id.0));
        }
        for e in it: self.edges.keys()
            invariant
                it.seq() == all,
                all.unref().to_set() == self.edges@.dom(),
                self@.edges == edge_views(self.edges@),
                raw_ids(connected@) == self@.neighbours_along(
                    all.unref().take(it.index()),
                    node_id.0,
                ),
        {
            let ghost before = connected@;
            let ghost walked = all.unref().take(it.index() + 1);
            assert(all.unref()[it.index()] == *e);
            assert(all.unref().to_set().contains(*e));
            proof {
                assert(walked.drop_last() =~= all.unref().take(it.index()));
                assert(walked.last() == *e);
            }
            match self.edges.get(e) {
                Some(edge) => {
                    if edge.source.0 == node_id.0 {
                        connected.push(edge.target);
                    }
                    if edge.relationship.bidirectional && edge.target.0 == node_id.0 {
                        connected.push(edge.source);
                    }
                    proof {
                        assert(self@.edges[*e] == edge@);
                        assert(raw_ids(connected@) =~= raw_ids(before) + self@.neighbours_by(
                            *e,
                            node_id.0,
                        ));
                    }
                },
                None => {},
            }
        }
        proof {
            assert(all.unref().take(all.unref().len() as int) =~= all.unref());
            assert(all.unref().no_duplicates()) by {
                assert forall|i: int, j: int|
                    0 <= i < all.unref().len() && 0 <= j < all.unref().len() && i
                        != j implies all.unref()[i] != all.unref()[j] by {
                    assert(*all[i] != *all[j]);
                }
            }
            assert(self@.edges.dom() == self.edges@.dom());
        }
        connected
    }

    /// The graph with each node replaced by what `f` makes of it, kept under
    /// the identifier of the node it replaces and carrying that identifier.
    /// Identifier, root, composition type, edges and metadata stay.
    pub fn map_nodes<F, N2>(self, f: F) -> (graph: GraphComposition<N2, R>) where
        F: Fn(&CompositionNode<N>) -> CompositionNode<N2>,

        requires
            forall|k: u128| #[trigger]
                self.node_map().contains_key(k) ==> call_requires(f, (&self.node_map()[k],)),
        ensures
            graph@.well_formed(),
            graph@.id == self@.id,
            graph@.root == self@.root,
            graph@.composition_type == self@.composition_type,
            graph@.edges == self@.edges,
            graph@.metadata == self@.metadata,
            graph@.nodes.dom() == self@.nodes.dom(),
            graph@.nodes.len() == self@.nodes.len(),
            graph@.edges.len() == self@.edges.len(),
            forall|k: u128| #[trigger]
                graph@.nodes.contains_key(k) ==> exists|made: CompositionNode<N2>|
                    #[trigger] call_ensures(f, (&self.node_map()[k],), made) && graph@.nodes[k] == (
                    NodeView { id: k, ..made@ }),
    {
        proof {
            use_type_invariant(&self);
            self.lemma_well_formed();
        }
        let ghost old_view = self@;
        assert(self.node_map() == self.nodes@);
        let nodes = self.nodes;
        let mut new_nodes: HashMap<u128, CompositionNode<N2>> = HashMap::new();
        let ghost all = nodes.keys().remaining();
        for k in it: nodes.keys()
            invariant
                it.seq() == all,
                all.unref().to_set() == nodes@.dom(),
                forall|k: u128| #[trigger]
                    nodes@.contains_key(k) ==> call_requires(f, (&nodes@[k],)),
                nodes_keyed(new_nodes@),
                forall|k: u128|
                    new_nodes@.contains_key(k) <==> exists|j: int|
                        0 <= j < it.index() && #[trigger] all.unref()[j] == k,
                forall|k: u128| #[trigger]
                    new_nodes@.contains_key(k) ==> exists|made: CompositionNode<N2>|
                        #[trigger] call_ensures(f, (&nodes@[k],), made) && new_nodes@[k]@ == (
                        NodeView { id: k, ..made@ }),
        {
            assert(all.unref()[it.index()] == *k);
            assert(all.unref().to_set().contains(*k));
            let ghost before = new_nodes@;
            match nodes.get(k) {
                Some(node) => {
                    let made = f(node);
                    let ghost made_node = made;
                    let mut made = made;
                    made.id = NodeId(*k);
                    new_nodes.insert(*k, made);
                    proof {
                        assert(call_ensures(f, (&nodes@[*k],), made_node));
                        assert(new_nodes@[*k]@ == (NodeView { id: *k, ..made_node@ }));
                        assert forall|key: u128| #[trigger]
                            new_nodes@.contains_key(key) implies exists|made: CompositionNode<N2>|
                            #[trigger] call_ensures(f, (&nodes@[key],), made) && new_nodes@[key]@
                                == (NodeView { id: key, ..made@ }) by {
                            if key != *k {
                                assert(before.contains_key(key));
                            }
                        }
                        assert forall|key: u128| new_nodes@.contains_key(key) <==> exists|j: int|
                            0 <= j < it.index() + 1 && #[trigger] all.unref()[j] == key by {
                            if before.contains_key(key) {
                                let j = choose|j: int|
                                    0 <= j < it.index() && #[trigger] all.unref()[j] == key;
                                assert(all.unref()[j] == key);
                            }
                            if exists|j: int|
                                0 <= j < it.index() + 1 && #[trigger] all.unref()[j] == key {
                                let j = choose|j: int|
                                    0 <= j < it.index() + 1 && #[trigger] all.unref()[j] == key;
                                if j < it.index() {
                                    assert(before.contains_key(key));
                                }
                            }
                        }
                    }
                },
                None => {
                    assert(false);
                },
            }
        }
        proof {
            assert(new_nodes@.dom() =~= nodes@.dom()) by {
                assert forall|k: u128| new_nodes@.contains_key(k) <==> nodes@.contains_key(k) by {
                    if new_nodes@.contains_key(k) {
                        let j = choose|j: int| 0 <= j < all.len() && #[trigger] all.unref()[j] == k;
                        assert(all.unref().to_set().contains(all.unref()[j]));
                    }
                    if nodes@.contains_key(k) {
                        assert(all.unref().to_set().contains(k));
                        let j = choose|j: int| 0 <= j < all.unref().len() && all.unref()[j] == k;
                        assert(all.unref()[j] == k);
                    }
                }
            }
        }
        let graph = GraphComposition::assemble(
            self.id,
            self.composition_root,
            self.composition_type,
            new_nodes,
            self.edges,
            self.metadata,
        );
        proof {
            assert(graph@.nodes.dom() =~= old_view.nodes.dom());
            assert forall|k: u128| #[trigger] graph@.nodes.contains_key(k) implies exists|
                made: CompositionNode<N2>,
            |
                #[trigger] call_ensures(f, (&nodes@[k],), made) && graph@.nodes[k] == (NodeView {
                    id: k,
                    ..made@
                }) by {
                assert(new_nodes@.contains_key(k));
            }
        }
        graph
    }

    /// What `f` makes of `init` and the nodes, taken one after the other in
    /// the order in which the map of nodes is walked.
    pub fn fold<T, F>(&self, init: T, f: F) -> (folded: T) where F: Fn(T, &CompositionNode<N>) -> T
        requires
            forall|acc: T, k: u128|
                self.node_map().contains_key(k) ==> #[trigger] call_requires(
                    f,
                    (acc, &self.node_map()[k]),
                ),
        ensures
            exists|order: Seq<u128>, steps: Seq<T>|
                {
                    &&& order.no_duplicates()
                    &&& order.to_set() == self@.nodes.dom()
                    &&& steps.len() == order.len() + 1
                    &&& steps[0] == init
                    &&& steps.last() == folded
                    &&& forall|i: int|
                        0 <= i < order.len() ==> #[trigger] call_ensures(
                            f,
                            (steps[i], &self.node_map()[order[i]]),
                            steps[i + 1],
                        )
                },
    {
        proof {
            use_type_invariant(self);
            self.lemma_well_formed();
        }
        assert(self.node_map() == self.nodes@);
        let mut acc = init;
        let ghost mut steps: Seq<T> = seq![init];
        let ghost all = self.nodes.keys().remaining();
        for k in it: self.nodes.keys()
            invariant
                it.seq() == all,
                all.unref().to_set() == self.nodes@.dom(),
                forall|acc: T, k: u128|
                    self.nodes@.contains_key(k) ==> #[trigger] call_requires(
                        f,
                        (acc, &self.nodes@[k]),
                    ),
                steps.len() == it.index() + 1,
                steps[0] == init,
                steps.last() == acc,
                forall|i: int|
                    0 <= i < it.index() ==> #[trigger] call_ensures(
                        f,
                        (steps[i], &self.nodes@[all.unref()[i]]),
                        steps[i + 1],
                    ),
        {
            assert(all.unref()[it.index()] == *k);
            assert(all.unref().to_set().contains(*k));
            match self.nodes.get(k) {
                Some(node) => {
                    acc = f(acc, node);
                    proof {
                        let earlier = steps;
                        steps = steps.push(acc);
                        assert forall|i: int|
                            0 <= i < it.index() + 1 implies #[trigger] call_ensures(
                            f,
                            (steps[i], &self.nodes@[all.unref()[i]]),
                            steps[i + 1],
                        ) by {
                            if i < it.index() {
                                assert(steps[i] == earlier[i]);
                                assert(steps[i + 1] == earlier[i + 1]);
                            }
                        }
                    }
                },
                None => {
                    assert(false);
                },
            }
        }
        proof {
            assert(all.unref().no_duplicates()) by {
                assert forall|i: int, j: int|
                    0 <= i < all.unref().len() && 0 <= j < all.unref().len() && i
                        != j implies all.unref()[i] != all.unref()[j] by {
                    assert(*all[i] != *all[j]);
                }
            }
            assert(self@.nodes.dom() == self.nodes@.dom());
        }
        acc
    }
}

impl<N: Clone, R: Clone> Clone for GraphComposition<N, R> {
    /// A graph that holds what this graph holds.
    fn clone(&self) -> (copy: Self)
        ensures
            copy@ == self@,
            copy@.well_formed(),
            copy.node_map() == self.node_map(),
            copy.edge_map() == self.edge_map(),
    {
        proof {
            use_type_invariant(self);
            self.lemma_well_formed();
        }
        GraphComposition::assemble(
            self.id,
            self.composition_root,
            self.composition_type.clone(),
            self.nodes.clone(),
            self.edges.clone(),
            self.metadata.clone(),
        )
    }
}

} // verus!
