//! The mathematical model of a composition graph, and what each operation of
//! the library is in that model.
//!
//! Identifiers are the raw 128-bit values. Where an operation draws fresh
//! identifiers, the model takes them as arguments.

use crate::base_types::{BaseNodeType, BaseRelationshipType, MetadataView};
use crate::identifiers::is_random_uuid;
use crate::json::is_empty_object;
use crate::node::{
    lemma_base_edge_copy, lemma_base_node_copy, CompositionEdge, CompositionNode, EdgeView,
    NodeView,
};
use vstd::prelude::*;

verus! {

/// How a graph was produced, with names as sequences of characters.
pub enum CompositionKind {
    Atomic { value_type: Seq<char> },
    Composite { structure_type: Seq<char> },
    Functor { source_type: Seq<char>, target_type: Seq<char> },
    Monad { context_type: Seq<char> },
    Domain(DomainKind),
}

/// The domain concept that a graph stands for, with names as sequences of
/// characters.
pub enum DomainKind {
    Entity { entity_type: Seq<char> },
    ValueObject { value_type: Seq<char> },
    Aggregate { aggregate_type: Seq<char> },
    Service { service_type: Seq<char> },
    Event { event_type: Seq<char> },
    Command { command_type: Seq<char> },
    BoundedContext { domain: Seq<char> },
}

/// What the nodes of a map hold, key by key.
pub open spec fn node_views<N>(nodes: Map<u128, CompositionNode<N>>) -> Map<u128, NodeView<N>> {
    nodes.map_values(|node: CompositionNode<N>| node@)
}

/// What the edges of a map hold, key by key.
pub open spec fn edge_views<R>(edges: Map<u128, CompositionEdge<R>>) -> Map<u128, EdgeView<R>> {
    edges.map_values(|edge: CompositionEdge<R>| edge@)
}

/// Whether each node of the map is kept under its own identifier.
pub open spec fn nodes_keyed<N>(nodes: Map<u128, CompositionNode<N>>) -> bool {
    forall|k: u128| #[trigger] nodes.contains_key(k) ==> nodes[k].id.0 == k
}

/// Whether each edge of the map is kept under its own identifier.
pub open spec fn edges_keyed<R>(edges: Map<u128, CompositionEdge<R>>) -> bool {
    forall|e: u128| #[trigger] edges.contains_key(e) ==> edges[e].id.0 == e
}

/// What a graph holds.
pub struct GraphView<N, R> {
    pub id: u128,
    pub root: u128,
    pub composition_type: CompositionKind,
    pub nodes: Map<u128, NodeView<N>>,
    pub edges: Map<u128, EdgeView<R>>,
    pub metadata: MetadataView,
}

impl<N, R> GraphView<N, R> {
    /// The invariant of every graph: finitely many nodes and edges, each kept
    /// under its own identifier, and a root that is one of the nodes.
    pub open spec fn well_formed(self) -> bool {
        &&& self.nodes.dom().finite()
        &&& self.edges.dom().finite()
        &&& self.nodes.contains_key(self.root)
        &&& forall|k: u128| #[trigger] self.nodes.contains_key(k) ==> self.nodes[k].id == k
        &&& forall|e: u128| #[trigger] self.edges.contains_key(e) ==> self.edges[e].id == e
    }

    /// The graph of one node, its root, and no edge.
    pub open spec fn rooted(
        id: u128,
        root: NodeView<N>,
        composition_type: CompositionKind,
        metadata: MetadataView,
    ) -> Self {
        GraphView {
            id,
            root: root.id,
            composition_type,
            nodes: Map::empty().insert(root.id, root),
            edges: Map::empty(),
            metadata,
        }
    }

    /// A graph of one node is well formed and has one node and no edge.
    pub proof fn lemma_rooted(
        id: u128,
        root: NodeView<N>,
        composition_type: CompositionKind,
        metadata: MetadataView,
    )
        ensures
            Self::rooted(id, root, composition_type, metadata).well_formed(),
            Self::rooted(id, root, composition_type, metadata).nodes.len() == 1,
            Self::rooted(id, root, composition_type, metadata).edges.len() == 0,
    {
        let graph = Self::rooted(id, root, composition_type, metadata);
        assert(graph.nodes.dom() =~= set![root.id]);
        assert(graph.edges.dom() =~= Set::empty());
    }

    /// The graph with `node` under its identifier; a node that was there is
    /// replaced.
    pub open spec fn with_node(self, node: NodeView<N>) -> Self {
        GraphView { nodes: self.nodes.insert(node.id, node), ..self }
    }

    /// The graph with `edge` under its identifier; an edge that was there is
    /// replaced.
    pub open spec fn with_edge(self, edge: EdgeView<R>) -> Self {
        GraphView { edges: self.edges.insert(edge.id, edge), ..self }
    }

    /// Whether some edge leaves the node `k`.
    pub open spec fn has_outgoing(self, k: u128) -> bool {
        exists|e: u128| #[trigger] self.edges.contains_key(e) && self.edges[e].source == k
    }

    /// Whether some edge reaches the node `k`.
    pub open spec fn has_incoming(self, k: u128) -> bool {
        exists|e: u128| #[trigger] self.edges.contains_key(e) && self.edges[e].target == k
    }

    /// The nodes that no edge leaves.
    pub open spec fn leaf_ids(self) -> Set<u128> {
        Set::new(|k: u128| self.nodes.contains_key(k) && !self.has_outgoing(k))
    }

    /// The nodes that no edge reaches.
    pub open spec fn root_ids(self) -> Set<u128> {
        Set::new(|k: u128| self.nodes.contains_key(k) && !self.has_incoming(k))
    }

    /// The nodes that a label may stand for: the root for the label `root`,
    /// and otherwise every node that carries the label.
    pub open spec fn labelled(self, label: Seq<char>) -> Set<u128> {
        if label == "root"@ {
            set![self.root]
        } else {
            Set::new(|k: u128| self.nodes.contains_key(k) && self.nodes[k].label == label)
        }
    }

    /// Whether a label stands for some node.
    pub open spec fn resolves(self, label: Seq<char>) -> bool {
        exists|k: u128| self.labelled(label).contains(k)
    }

    /// Whether `after` is this graph with one more node that holds the given
    /// parts under some fresh identifier.
    pub open spec fn node_added(
        self,
        after: Self,
        node_type: N,
        label: Seq<char>,
        data: serde_json::Value,
    ) -> bool {
        exists|id: u128|
            is_random_uuid(id) && after == #[trigger] self.with_node(
                NodeView::plain(id, node_type, label, data),
            )
    }

    /// Whether `after` is this graph with one more edge of type
    /// `relationship` from `source` to `target` under some fresh identifier.
    pub open spec fn edge_added(
        self,
        after: Self,
        source: u128,
        target: u128,
        relationship: R,
    ) -> bool {
        exists|id: u128|
            is_random_uuid(id) && after == #[trigger] self.with_edge(
                EdgeView::plain(id, source, target, relationship),
            )
    }

    /// Whether `after` is what adding an edge by labels makes of this graph:
    /// where both labels stand for nodes, the graph with one more edge between
    /// a node that the first label stands for and a node that the second
    /// label stands for; where a label stands for no node, this graph.
    pub open spec fn edge_added_by_label(
        self,
        after: Self,
        source_label: Seq<char>,
        target_label: Seq<char>,
        relationship: R,
    ) -> bool {
        if self.resolves(source_label) && self.resolves(target_label) {
            exists|source: u128, target: u128|
                {
                    &&& self.labelled(source_label).contains(source)
                    &&& self.labelled(target_label).contains(target)
                    &&& #[trigger] self.edge_added(after, source, target, relationship)
                }
        } else {
            after == self
        }
    }

    /// What the edge `e` adds to the neighbours of the node `k`: its target
    /// where it leaves `k`, then its source where it runs both ways and
    /// reaches `k`.
    pub open spec fn neighbours_by(self, e: u128, k: u128) -> Seq<u128> {
        let edge = self.edges[e];
        let forward = if edge.source == k {
            seq![edge.target]
        } else {
            Seq::empty()
        };
        let backward = if edge.relationship.bidirectional && edge.target == k {
            seq![edge.source]
        } else {
            Seq::empty()
        };
        forward + backward
    }

    /// The neighbours of the node `k` as the edges `order` add them, one edge
    /// after the other.
    pub open spec fn neighbours_along(self, order: Seq<u128>, k: u128) -> Seq<u128>
        decreases order.len(),
    {
        if order.len() == 0 {
            Seq::empty()
        } else {
            self.neighbours_along(order.drop_last(), k) + self.neighbours_by(order.last(), k)
        }
    }

    /// The graph `self` with the nodes and edges of `other` put into it; where
    /// both hold a node or an edge under one identifier, that of `other`
    /// stays.
    pub open spec fn merged(self, other: Self) -> Self {
        GraphView {
            nodes: self.nodes.union_prefer_right(other.nodes),
            edges: self.edges.union_prefer_right(other.edges),
            ..self
        }
    }
}

/// Whether `out` holds the nodes of `base` and copies of the nodes of `other`;
/// where both hold a node under one identifier, the copy of that of `other`.
pub open spec fn nodes_merged<N: Clone>(
    base: Map<u128, NodeView<N>>,
    other: Map<u128, NodeView<N>>,
    out: Map<u128, NodeView<N>>,
) -> bool {
    &&& out.dom() == base.dom().union(other.dom())
    &&& forall|k: u128| #[trigger] other.contains_key(k) ==> other[k].copied_to(out[k])
    &&& forall|k: u128|
        #[trigger] base.contains_key(k) && !other.contains_key(k) ==> out[k] == base[k]
}

/// Whether `out` holds the edges of `base` and copies of the edges of `other`;
/// where both hold an edge under one identifier, the copy of that of `other`.
pub open spec fn edges_merged<R: Clone>(
    base: Map<u128, EdgeView<R>>,
    other: Map<u128, EdgeView<R>>,
    out: Map<u128, EdgeView<R>>,
) -> bool {
    &&& out.dom() == base.dom().union(other.dom())
    &&& forall|k: u128| #[trigger] other.contains_key(k) ==> other[k].copied_to(out[k])
    &&& forall|k: u128|
        #[trigger] base.contains_key(k) && !other.contains_key(k) ==> out[k] == base[k]
}

/// In the base universe a copy of a node holds what the node holds, so merged
/// nodes are the union of the two maps, with the second map's node where both
/// have one.
pub proof fn lemma_base_nodes_merged(
    base: Map<u128, NodeView<BaseNodeType>>,
    other: Map<u128, NodeView<BaseNodeType>>,
    out: Map<u128, NodeView<BaseNodeType>>,
)
    requires
        nodes_merged(base, other, out),
    ensures
        out == base.union_prefer_right(other),
{
    assert forall|k: u128| out.contains_key(k) implies out[k] == base.union_prefer_right(
        other,
    )[k] by {
        if other.contains_key(k) {
            lemma_base_node_copy(other[k], out[k]);
        }
    }
    assert(out =~= base.union_prefer_right(other));
}

/// In the base universe a copy of an edge holds what the edge holds, so
/// merged edges are the union of the two maps, with the second map's edge
/// where both have one.
pub proof fn lemma_base_edges_merged(
    base: Map<u128, EdgeView<BaseRelationshipType>>,
    other: Map<u128, EdgeView<BaseRelationshipType>>,
    out: Map<u128, EdgeView<BaseRelationshipType>>,
)
    requires
        edges_merged(base, other, out),
    ensures
        out == base.union_prefer_right(other),
{
    assert forall|k: u128| out.contains_key(k) implies out[k] == base.union_prefer_right(
        other,
    )[k] by {
        if other.contains_key(k) {
            lemma_base_edge_copy(other[k], out[k]);
        }
    }
    assert(out =~= base.union_prefer_right(other));
}

impl<N: Clone, R: Clone> GraphView<N, R> {
    /// Whether `self` is `base` with copies of the nodes and edges of `other`
    /// put into it.
    pub open spec fn is_merge_of(self, base: Self, other: Self) -> bool {
        &&& self.id == base.id
        &&& self.root == base.root
        &&& self.composition_type == base.composition_type
        &&& self.metadata == base.metadata
        &&& nodes_merged(base.nodes, other.nodes, self.nodes)
        &&& edges_merged(base.edges, other.edges, self.edges)
    }
}

impl GraphView<BaseNodeType, BaseRelationshipType> {
    /// `edges` with one edge of type `relationship` from each of `sources` to
    /// `target`, the `i`-th under `ids[i]`, put in one after the other.
    pub open spec fn linked(
        edges: Map<u128, EdgeView<BaseRelationshipType>>,
        sources: Seq<u128>,
        ids: Seq<u128>,
        target: u128,
        relationship: BaseRelationshipType,
    ) -> Map<u128, EdgeView<BaseRelationshipType>>
        decreases sources.len(),
    {
        if sources.len() == 0 || ids.len() == 0 {
            edges
        } else {
            Self::linked(edges, sources.drop_last(), ids.drop_last(), target, relationship).insert(
                ids.last(),
                EdgeView::plain(ids.last(), sources.last(), target, relationship),
            )
        }
    }

    /// Sequential composition: `self` merged with `other` under the new
    /// identifier `id`, with a `Sequence` edge from each of `leaves` to the
    /// root of `other`, the `i`-th under `edge_ids[i]`.
    pub open spec fn sequenced(
        self,
        other: Self,
        id: u128,
        leaves: Seq<u128>,
        edge_ids: Seq<u128>,
    ) -> Self {
        GraphView {
            id,
            root: self.root,
            composition_type: CompositionKind::Composite { structure_type: "Sequential"@ },
            nodes: self.nodes.union_prefer_right(other.nodes),
            edges: Self::linked(
                self.edges.union_prefer_right(other.edges),
                leaves,
                edge_ids,
                other.root,
                BaseRelationshipType::Sequence,
            ),
            metadata: self.metadata,
        }
    }

    /// Branching composition: a new graph called `name` around the new root
    /// `root`, holding the nodes and edges of `self` and of `other`, with an
    /// edge of type `relationship` from the new root to the root of `self`
    /// under `first`, and then one to the root of `other` under `second`.
    pub open spec fn branched(
        self,
        other: Self,
        id: u128,
        root: NodeView<BaseNodeType>,
        first: u128,
        second: u128,
        name: Seq<char>,
        relationship: BaseRelationshipType,
    ) -> Self {
        GraphView {
            id,
            root: root.id,
            composition_type: CompositionKind::Composite { structure_type: name },
            nodes: Map::empty().insert(root.id, root).union_prefer_right(
                self.nodes,
            ).union_prefer_right(other.nodes),
            edges: self.edges.union_prefer_right(other.edges).insert(
                first,
                EdgeView::plain(first, root.id, self.root, relationship),
            ).insert(second, EdgeView::plain(second, root.id, other.root, relationship)),
            metadata: MetadataView::named(name),
        }
    }

    /// Whether `self` is a sequential composition of `first` and `second`: for
    /// some order of the leaves of `first` and some fresh identifiers,
    /// `first.sequenced(second, ..)`.
    pub open spec fn is_sequence_of(self, first: Self, second: Self) -> bool {
        &&& is_random_uuid(self.id)
        &&& exists|leaves: Seq<u128>, edge_ids: Seq<u128>|
            {
                &&& leaves.no_duplicates()
                &&& leaves.to_set() == first.leaf_ids()
                &&& edge_ids.len() == leaves.len()
                &&& forall|i: int|
                    0 <= i < edge_ids.len() ==> is_random_uuid(#[trigger] edge_ids[i])
                &&& self == #[trigger] first.sequenced(second, self.id, leaves, edge_ids)
            }
    }

    /// Whether `self` is a branching composition of `first` and `second`
    /// called `name` with edges of type `relationship`: for some fresh root of
    /// type `Aggregate`, labelled `root`, with the empty JSON object as data,
    /// and some fresh identifiers, `first.branched(second, ..)`.
    pub open spec fn is_branching_of(
        self,
        first: Self,
        second: Self,
        name: Seq<char>,
        relationship: BaseRelationshipType,
    ) -> bool {
        &&& is_random_uuid(self.id)
        &&& exists|root: NodeView<BaseNodeType>, first_id: u128, second_id: u128|
            {
                &&& is_random_uuid(root.id)
                &&& is_random_uuid(first_id)
                &&& is_random_uuid(second_id)
                &&& is_empty_object(root.data)
                &&& root == NodeView::plain(root.id, BaseNodeType::Aggregate, "root"@, root.data)
                &&& self == #[trigger] first.branched(
                    second,
                    self.id,
                    root,
                    first_id,
                    second_id,
                    name,
                    relationship,
                )
            }
    }

    /// Whether `self` is a parallel composition of `first` and `second`.
    pub open spec fn is_parallel_of(self, first: Self, second: Self) -> bool {
        self.is_branching_of(first, second, "Parallel"@, BaseRelationshipType::Parallel)
    }

    /// Whether `self` is a choice composition of `first` and `second`.
    pub open spec fn is_choice_of(self, first: Self, second: Self) -> bool {
        self.is_branching_of(first, second, "Choice"@, BaseRelationshipType::Choice)
    }
}

} // verus!
