//! The composition algebra: the named constructors of graphs, and
//! sequential, parallel and choice composition.

use crate::base_types::{BaseNodeType, BaseRelationshipType, Metadata, MetadataView};
use crate::composition::{
    CompositionError, CompositionType, DomainCompositionType, GraphComposition,
};
use crate::identifiers::{is_random_uuid, raw_ids, EdgeId, GraphId, NodeId};
use crate::json::{empty_object, id_object, is_empty_object, is_id_object};
use crate::model::{
    edge_views, edges_keyed, edges_merged, lemma_base_edges_merged, lemma_base_nodes_merged,
    node_views, nodes_keyed, nodes_merged, CompositionKind, DomainKind, GraphView,
};
use crate::node::{CompositionEdge, CompositionNode, NodeView};
use std::collections::HashMap;
use vstd::prelude::*;
use vstd::std_specs::iter::IteratorSpec;

verus! {

broadcast use vstd::std_specs::hash::group_hash_axioms;

/// `into` with a copy of each node of `from` put into it, under the node's
/// identifier.
pub(crate) fn merge_nodes<N: Clone>(
    into: HashMap<u128, CompositionNode<N>>,
    from: &HashMap<u128, CompositionNode<N>>,
) -> (out: HashMap<u128, CompositionNode<N>>)
    requires
        nodes_keyed(into@),
        nodes_keyed(from@),
    ensures
        nodes_keyed(out@),
        nodes_merged(node_views(into@), node_views(from@), node_views(out@)),
        out@.dom() == into@.dom().union(from@.dom()),
{
    let ghost base = into@;
    let mut out = into;
    let ghost all = from.keys().remaining();
    for k in it: from.keys()
        invariant
            it.seq() == all,
            all.unref().to_set() == from@.dom(),
            nodes_keyed(from@),
            nodes_keyed(base),
            nodes_keyed(out@),
            forall|k: u128| #[trigger]
                out@.contains_key(k) <==> (base.contains_key(k) || exists|j: int|
                    0 <= j < it.index() && #[trigger] all.unref()[j] == k),
            forall|j: int|
                0 <= j < it.index() ==> from@[#[trigger] all.unref()[j]]@.copied_to(
                    out@[all.unref()[j]]@,
                ),
            forall|k: u128|
                #[trigger] base.contains_key(k) && !from@.contains_key(k) ==> out@.contains_key(k)
                    && out@[k] == base[k],
    {
        assert(all.unref()[it.index()] == *k);
        assert(all.unref().to_set().contains(*k));
        let ghost before = out@;
        match from.get(k) {
            Some(node) => {
                let copy = node.clone();
                out.insert(copy.id.0, copy);
                proof {
                    assert(copy.id.0 == *k);
                    assert forall|j: int|
                        0 <= j < it.index() + 1 implies from@[#[trigger] all.unref()[j]]@.copied_to(
                        out@[all.unref()[j]]@,
                    ) by {
                        if all.unref()[j] != *k {
                            assert(out@[all.unref()[j]] == before[all.unref()[j]]);
                        }
                    }
                    assert forall|key: u128| #[trigger]
                        out@.contains_key(key) <==> (base.contains_key(key) || exists|j: int|
                            0 <= j < it.index() + 1 && #[trigger] all.unref()[j] == key) by {
                        if before.contains_key(key) && !base.contains_key(key) {
                            let j = choose|j: int|
                                0 <= j < it.index() && #[trigger] all.unref()[j] == key;
                            assert(all.unref()[j] == key);
                        }
                        if exists|j: int|
                            0 <= j < it.index() + 1 && #[trigger] all.unref()[j] == key {
                            let j = choose|j: int|
                                0 <= j < it.index() + 1 && #[trigger] all.unref()[j] == key;
                            if j < it.index() {
                                assert(all.unref()[j] == key);
                                assert(before.contains_key(key));
                            }
                        }
                    }
                }
            },
            None => {
                assert(false);
            },
        }
    }
    proof {
        assert(out@.dom() =~= base.dom().union(from@.dom())) by {
            assert forall|k: u128| out@.contains_key(k) <==> (base.contains_key(k)
                || from@.contains_key(k)) by {
                if out@.contains_key(k) && !base.contains_key(k) {
                    let j = choose|j: int| 0 <= j < all.len() && #[trigger] all.unref()[j] == k;
                    assert(all.unref().to_set().contains(all.unref()[j]));
                }
                if from@.contains_key(k) {
                    assert(all.unref().to_set().contains(k));
                    let j = choose|j: int| 0 <= j < all.unref().len() && all.unref()[j] == k;
                    assert(all.unref()[j] == k);
                }
            }
        }
        assert(node_views(out@).dom() =~= node_views(base).dom().union(node_views(from@).dom()));
        assert forall|k: u128| #[trigger] node_views(from@).contains_key(k) implies node_views(
            from@,
        )[k].copied_to(node_views(out@)[k]) by {
            assert(all.unref().to_set().contains(k));
            let j = choose|j: int| 0 <= j < all.unref().len() && all.unref()[j] == k;
            assert(all.unref()[j] == k);
        }
    }
    out
}

/// `into` with a copy of each edge of `from` put into it, under the edge's
/// identifier.
pub(crate) fn merge_edges<R: Clone>(
    into: HashMap<u128, CompositionEdge<R>>,
    from: &HashMap<u128, CompositionEdge<R>>,
) -> (out: HashMap<u128, CompositionEdge<R>>)
    requires
        edges_keyed(into@),
        edges_keyed(from@),
    ensures
        edges_keyed(out@),
        edges_merged(edge_views(into@), edge_views(from@), edge_views(out@)),
        out@.dom() == into@.dom().union(from@.dom()),
{
    let ghost base = into@;
    let mut out = into;
    let ghost all = from.keys().remaining();
    for k in it: from.keys()
        invariant
            it.seq() == all,
            all.unref().to_set() == from@.dom(),
            edges_keyed(from@),
            edges_keyed(base),
            edges_keyed(out@),
            forall|k: u128| #[trigger]
                out@.contains_key(k) <==> (base.contains_key(k) || exists|j: int|
                    0 <= j < it.index() && #[trigger] all.unref()[j] == k),
            forall|j: int|
                0 <= j < it.index() ==> from@[#[trigger] all.unref()[j]]@.copied_to(
                    out@[all.unref()[j]]@,
                ),
            forall|k: u128|
                #[trigger] base.contains_key(k) && !from@.contains_key(k) ==> out@.contains_key(k)
                    && out@[k] == base[k],
    {
        assert(all.unref()[it.index()] == *k);
        assert(all.unref().to_set().contains(*k));
        let ghost before = out@;
        match from.get(k) {
            Some(edge) => {
                let copy = edge.clone();
                out.insert(copy.id.0, copy);
                proof {
                    assert(copy.id.0 == *k);
                    assert forall|j: int|
                        0 <= j < it.index() + 1 implies from@[#[trigger] all.unref()[j]]@.copied_to(
                        out@[all.unref()[j]]@,
                    ) by {
                        if all.unref()[j] != *k {
                            assert(out@[all.unref()[j]] == before[all.unref()[j]]);
                        }
                    }
                    assert forall|key: u128| #[trigger]
                        out@.contains_key(key) <==> (base.contains_key(key) || exists|j: int|
                            0 <= j < it.index() + 1 && #[trigger] all.unref()[j] == key) by {
                        if before.contains_key(key) && !base.contains_key(key) {
                            let j = choose|j: int|
                                0 <= j < it.index() && #[trigger] all.unref()[j] == key;
                            assert(all.unref()[j] == key);
                        }
                        if exists|j: int|
                            0 <= j < it.index() + 1 && #[trigger] all.unref()[j] == key {
                            let j = choose|j: int|
                                0 <= j < it.index() + 1 && #[trigger] all.unref()[j] == key;
                            if j < it.index() {
                                assert(all.unref()[j] == key);
                                assert(before.contains_key(key));
                            }
                        }
                    }
                }
            },
            None => {
                assert(false);
            },
        }
    }
    proof {
        assert(out@.dom() =~= base.dom().union(from@.dom())) by {
            assert forall|k: u128| out@.contains_key(k) <==> (base.contains_key(k)
                || from@.contains_key(k)) by {
                if out@.contains_key(k) && !base.contains_key(k) {
                    let j = choose|j: int| 0 <= j < all.len() && #[trigger] all.unref()[j] == k;
                    assert(all.unref().to_set().contains(all.unref()[j]));
                }
                if from@.contains_key(k) {
                    assert(all.unref().to_set().contains(k));
                    let j = choose|j: int| 0 <= j < all.unref().len() && all.unref()[j] == k;
                    assert(all.unref()[j] == k);
                }
            }
        }
        assert(edge_views(out@).dom() =~= edge_views(base).dom().union(edge_views(from@).dom()));
        assert forall|k: u128| #[trigger] edge_views(from@).contains_key(k) implies edge_views(
            from@,
        )[k].copied_to(edge_views(out@)[k]) by {
            assert(all.unref().to_set().contains(k));
            let j = choose|j: int| 0 <= j < all.unref().len() && all.unref()[j] == k;
            assert(all.unref()[j] == k);
        }
    }
    out
}

/// A graph that can be combined with another of its kind.
pub trait Composable: Sized {
    /// What a composition gives.
    type Output;

    /// The composition of `self` and `other`.
    fn compose(&self, other: &Self) -> Result<Self::Output, CompositionError>;

    /// Whether `self` and `other` can be composed.
    fn can_compose_with(&self, other: &Self) -> bool;
}

impl<N: Clone, R: Clone> Composable for GraphComposition<N, R> {
    type Output = GraphComposition<N, R>;

    /// The graph `self` with copies of the nodes and edges of `other` put into
    /// it; where both hold a node or an edge under one identifier, the copy of
    /// that of `other` stays. No edge is added.
    fn compose(&self, other: &Self) -> (composed: Result<GraphComposition<N, R>, CompositionError>)
        ensures
            composed matches Ok(graph) && graph@.well_formed() && graph@.is_merge_of(
                self@,
                other@,
            ),
    {
        let nodes = merge_nodes(self.nodes().clone(), other.nodes());
        let edges = merge_edges(self.edges().clone(), other.edges());
        let graph = GraphComposition::assemble(
            self.id(),
            self.composition_root(),
            self.composition_type().clone(),
            nodes,
            edges,
            self.metadata().clone(),
        );
        Ok(graph)
    }

    /// Any two graphs can be composed.
    fn can_compose_with(&self, other: &Self) -> (yes: bool)
        ensures
            yes,
    {
        true
    }
}

/// A map from graphs of one universe to graphs of another.
pub trait GraphMorphism<N1, R1, N2, R2>: Send + Sync where
    N1: Clone,
    R1: Clone,
    N2: Clone,
    R2: Clone,
 {
    /// What the morphism makes of `graph`.
    fn apply(&self, graph: &GraphComposition<N1, R1>) -> Result<
        GraphComposition<N2, R2>,
        CompositionError,
    >;
}

/// Structure-preserving maps: the nodes change, the edges and the
/// identifiers stay.
pub trait GraphFunctor<N, R> where N: Clone, R: Clone {
    /// The graph with each node replaced by what `f` makes of it. `f` must
    /// accept every node.
    fn fmap<F, N2>(&self, f: F) -> GraphComposition<N2, R> where
        F: Fn(&CompositionNode<N>) -> CompositionNode<N2>,
        N2: Clone,

        requires
            forall|node: CompositionNode<N>| #[trigger] call_requires(f, (&node,)),
    ;
}

impl<N: Clone, R: Clone> GraphFunctor<N, R> for GraphComposition<N, R> {
    /// A graph with each node replaced by what `f` makes of it, kept under
    /// the identifier of the node it replaces and carrying that identifier.
    /// Identifier, root, composition type, edges and metadata are those of
    /// `self`.
    fn fmap<F, N2>(&self, f: F) -> (graph: GraphComposition<N2, R>) where
        F: Fn(&CompositionNode<N>) -> CompositionNode<N2>,
        N2: Clone,

        ensures
            graph@.well_formed(),
            graph@.id == self@.id,
            graph@.root == self@.root,
            graph@.composition_type == self@.composition_type,
            graph@.edges == self@.edges,
            graph@.metadata == self@.metadata,
            graph@.nodes.dom() == self@.nodes.dom(),
            graph@.nodes.len() == self@.nodes.len(),
            graph@.edges.len() == self@.edges.len(),
            forall|k: u128| #[trigger]
                graph@.nodes.contains_key(k) ==> exists|made: CompositionNode<N2>|
                    #[trigger] call_ensures(f, (&self.node_map()[k],), made) && graph@.nodes[k] == (
                    NodeView { id: k, ..made@ }),
    {
        self.clone().map_nodes(f)
    }
}

/// Composition in a context.
pub trait GraphMonad<N, R> where N: Clone, R: Clone {
    /// The graph that holds `value` and nothing else.
    fn pure(value: CompositionNode<N>) -> GraphComposition<N, R>;

    /// The graph that `f` makes of the nodes of `self`.
    fn bind<F>(&self, f: F) -> Result<GraphComposition<N, R>, CompositionError> where
        F: Fn(&CompositionNode<N>) -> GraphComposition<N, R>,
    ;
}

/// Whether `graph` is a fresh composite graph called `name`: one node, its
/// root, of type `Aggregate`, labelled `root`, with the empty JSON object as
/// data, and no edge.
pub open spec fn is_composite(
    graph: GraphView<BaseNodeType, BaseRelationshipType>,
    name: Seq<char>,
) -> bool {
    &&& is_random_uuid(graph.id)
    &&& is_random_uuid(graph.root)
    &&& graph.nodes.contains_key(graph.root)
    &&& is_empty_object(graph.nodes[graph.root].data)
    &&& graph == GraphView::<BaseNodeType, BaseRelationshipType>::rooted(
        graph.id,
        NodeView::plain(graph.root, BaseNodeType::Aggregate, "root"@, graph.nodes[graph.root].data),
        CompositionKind::Composite { structure_type: name },
        MetadataView::named(name),
    )
}

impl GraphComposition<BaseNodeType, BaseRelationshipType> {
    /// A graph of a single node that holds a value: the root has the type
    /// `Value`, the label `value_type` and the data `data`.
    pub fn atomic(value_type: &str, data: serde_json::Value) -> (graph: Self)
        ensures
            graph@.well_formed(),
            is_random_uuid(graph@.id),
            is_random_uuid(graph@.root),
            graph@.nodes.len() == 1,
            graph@.edges.len() == 0,
            graph@ == GraphView::<BaseNodeType, BaseRelationshipType>::rooted(
                graph@.id,
                NodeView::plain(graph@.root, BaseNodeType::Value, value_type@, data),
                CompositionKind::Atomic { value_type: value_type@ },
                MetadataView::named(value_type@),
            ),
    {
        let root = CompositionNode::new(BaseNodeType::Value, value_type.to_owned(), data);
        let graph = GraphComposition::rooted(
            GraphId::new(),
            root,
            CompositionType::Atomic { value_type: value_type.to_owned() },
            Metadata::new(value_type),
        );
        proof {
            GraphView::<BaseNodeType, BaseRelationshipType>::lemma_rooted(
                graph@.id,
                root@,
                graph@.composition_type,
                graph@.metadata,
            );
        }
        graph
    }

    /// A graph that stands for a structure: the root has the type
    /// `Aggregate`, the label `root` and the empty JSON object as data.
    pub fn composite(structure_type: &str) -> (graph: Self)
        ensures
            graph@.well_formed(),
            graph@.nodes.len() == 1,
            graph@.edges.len() == 0,
            is_composite(graph@, structure_type@),
    {
        let root = CompositionNode::new(BaseNodeType::Aggregate, "root".to_owned(), empty_object());
        let graph = GraphComposition::rooted(
            GraphId::new(),
            root,
            CompositionType::Composite { structure_type: structure_type.to_owned() },
            Metadata::new(structure_type),
        );
        proof {
            GraphView::<BaseNodeType, BaseRelationshipType>::lemma_rooted(
                graph@.id,
                root@,
                graph@.composition_type,
                graph@.metadata,
            );
        }
        graph
    }

    /// A graph that stands for an entity: the root has the type
    /// `EntityReference`, the label `entity_type` and the data
    /// `{"id": <entity_id>}`.
    pub fn entity(entity_type: &str, entity_id: &str) -> (graph: Self)
        ensures
            graph@.well_formed(),
            is_random_uuid(graph@.id),
            is_random_uuid(graph@.root),
            graph@.nodes.len() == 1,
            graph@.edges.len() == 0,
            is_id_object(graph@.nodes[graph@.root].data, entity_id@),
            graph@ == GraphView::<BaseNodeType, BaseRelationshipType>::rooted(
                graph@.id,
                NodeView::plain(
                    graph@.root,
                    BaseNodeType::EntityReference,
                    entity_type@,
                    graph@.nodes[graph@.root].data,
                ),
                CompositionKind::Domain(DomainKind::Entity { entity_type: entity_type@ }),
                MetadataView::named(entity_type@),
            ),
    {
        let root = CompositionNode::new(
            BaseNodeType::EntityReference,
            entity_type.to_owned(),
            id_object(entity_id),
        );
        let graph = GraphComposition::rooted(
            GraphId::new(),
            root,
            CompositionType::Domain(
                DomainCompositionType::Entity { entity_type: entity_type.to_owned() },
            ),
            Metadata::new(entity_type),
        );
        proof {
            GraphView::<BaseNodeType, BaseRelationshipType>::lemma_rooted(
                graph@.id,
                root@,
                graph@.composition_type,
                graph@.metadata,
            );
        }
        graph
    }

    /// A graph that stands for an aggregate: the root has the type
    /// `Aggregate`, the label `aggregate_type` and the data
    /// `{"id": <aggregate_id>}`.
    pub fn aggregate(aggregate_type: &str, aggregate_id: &str) -> (graph: Self)
        ensures
            graph@.well_formed(),
            is_random_uuid(graph@.id),
            is_random_uuid(graph@.root),
            graph@.nodes.len() == 1,
            graph@.edges.len() == 0,
            is_id_object(graph@.nodes[graph@.root].data, aggregate_id@),
            graph@ == GraphView::<BaseNodeType, BaseRelationshipType>::rooted(
                graph@.id,
                NodeView::plain(
                    graph@.root,
                    BaseNodeType::Aggregate,
                    aggregate_type@,
                    graph@.nodes[graph@.root].data,
                ),
                CompositionKind::Domain(DomainKind::Aggregate { aggregate_type: aggregate_type@ }),
                MetadataView::named(aggregate_type@),
            ),
    {
        let root = CompositionNode::new(
            BaseNodeType::Aggregate,
            aggregate_type.to_owned(),
            id_object(aggregate_id),
        );
        let graph = GraphComposition::rooted(
            GraphId::new(),
            root,
            CompositionType::Domain(
                DomainCompositionType::Aggregate { aggregate_type: aggregate_type.to_owned() },
            ),
            Metadata::new(aggregate_type),
        );
        proof {
            GraphView::<BaseNodeType, BaseRelationshipType>::lemma_rooted(
                graph@.id,
                root@,
                graph@.composition_type,
                graph@.metadata,
            );
        }
        graph
    }

    /// Sequential composition, `self` then `other`: a graph with a fresh
    /// identifier and the root of `self` that holds the nodes and edges of
    /// both, and one `Sequence` edge with a fresh identifier from each leaf of
    /// `self` to the root of `other`. Where both hold a node or an edge under
    /// one identifier, that of `other` stays. Always succeeds.
    pub fn then(&self, other: &Self) -> (composed: Result<Self, CompositionError>)
        ensures
            composed matches Ok(graph) && graph@.well_formed() && graph@.is_sequence_of(
                self@,
                other@,
            ),
    {
        let leaves = self.find_leaves();
        let nodes = merge_nodes(self.nodes().clone(), other.nodes());
        let edges = merge_edges(self.edges().clone(), other.edges());
        let id = GraphId::new();
        let target = other.composition_root();
        let mut graph = GraphComposition::assemble(
            id,
            self.composition_root(),
            CompositionType::Composite { structure_type: "Sequential".to_owned() },
            nodes,
            edges,
            self.metadata().clone(),
        );
        let ghost sources = raw_ids(leaves@);
        let ghost mut edge_ids: Seq<u128> = Seq::empty();
        proof {
            lemma_base_nodes_merged(self@.nodes, other@.nodes, graph@.nodes);
            lemma_base_edges_merged(self@.edges, other@.edges, graph@.edges);
            assert(sources.take(0) =~= Seq::empty());
        }
        let mut i: usize = 0;
        while i < leaves.len()
            invariant
                i <= leaves@.len(),
                sources == raw_ids(leaves@),
                target.0 == other@.root,
                edge_ids.len() == i,
                forall|j: int| 0 <= j < edge_ids.len() ==> is_random_uuid(#[trigger] edge_ids[j]),
                graph@.well_formed(),
                graph@ == self@.sequenced(other@, id.value, sources.take(i as int), edge_ids),
            decreases leaves@.len() - i,
        {
            let edge_id = EdgeId::new();
            graph =
            graph.add_edge_with_id(edge_id, leaves[i], target, BaseRelationshipType::Sequence);
            proof {
                let earlier = edge_ids;
                edge_ids = edge_ids.push(edge_id.0);
                let walked = sources.take(i + 1);
                assert(walked.drop_last() =~= sources.take(i as int));
                assert(edge_ids.drop_last() =~= earlier);
                assert(walked.last() == leaves@[i as int].0);
            }
            i += 1;
        }
        proof {
            assert(sources.take(leaves@.len() as int) =~= sources);
            assert(sources.no_duplicates()) by {
                assert forall|a: int, b: int|
                    0 <= a < sources.len() && 0 <= b < sources.len() && a != b implies sources[a]
                    != sources[b] by {
                    assert(leaves@[a] != leaves@[b]);
                }
            }
            assert(graph@ == self@.sequenced(other@, graph@.id, sources, edge_ids));
            assert(sources.to_set() =~= self@.leaf_ids()) by {
                assert forall|k: u128| sources.to_set().contains(k) <==> self@.leaf_ids().contains(
                    k,
                ) by {
                    if sources.to_set().contains(k) {
                        let a = choose|a: int| 0 <= a < sources.len() && sources[a] == k;
                        assert(leaves@.contains(leaves@[a]));
                    }
                    if self@.leaf_ids().contains(k) {
                        assert(leaves@.contains(NodeId(k)));
                        let a = choose|a: int| 0 <= a < leaves@.len() && leaves@[a] == NodeId(k);
                        assert(sources[a] == k);
                    }
                }
            }
        }
        Ok(graph)
    }

    /// Branching composition: a graph called `name` with a fresh identifier
    /// and a fresh root of type `Aggregate` that holds the nodes and edges of
    /// `self` and of `other`, and two edges of type `relationship` with fresh
    /// identifiers from the new root, the first to the root of `self`, the
    /// second to the root of `other`.
    fn branch(&self, other: &Self, name: &str, relationship: BaseRelationshipType) -> (graph: Self)
        ensures
            graph@.well_formed(),
            graph@.is_branching_of(self@, other@, name@, relationship),
    {
        let root = CompositionNode::new(BaseNodeType::Aggregate, "root".to_owned(), empty_object());
        let root_id = root.id;
        let ghost root_view = root@;
        let mut nodes: HashMap<u128, CompositionNode<BaseNodeType>> = HashMap::new();
        nodes.insert(root_id.0, root);
        let ghost alone = node_views(nodes@);
        let nodes = merge_nodes(nodes, self.nodes());
        let ghost with_first = node_views(nodes@);
        let nodes = merge_nodes(nodes, other.nodes());
        let edges: HashMap<u128, CompositionEdge<BaseRelationshipType>> = HashMap::new();
        let ghost none = edge_views(edges@);
        let edges = merge_edges(edges, self.edges());
        let ghost first_edges = edge_views(edges@);
        let edges = merge_edges(edges, other.edges());
        let graph = GraphComposition::assemble(
            GraphId::new(),
            root_id,
            CompositionType::Composite { structure_type: name.to_owned() },
            nodes,
            edges,
            Metadata::new(name),
        );
        proof {
            assert(alone =~= Map::empty().insert(root_view.id, root_view));
            assert(none =~= Map::empty());
            lemma_base_nodes_merged(alone, self@.nodes, with_first);
            lemma_base_nodes_merged(with_first, other@.nodes, graph@.nodes);
            lemma_base_edges_merged(none, self@.edges, first_edges);
            lemma_base_edges_merged(first_edges, other@.edges, graph@.edges);
            assert(first_edges =~= self@.edges);
        }
        let first = EdgeId::new();
        let second = EdgeId::new();
        let target_first = self.composition_root();
        let target_second = other.composition_root();
        let graph = graph.add_edge_with_id(first, root_id, target_first, relationship.clone());
        let graph = graph.add_edge_with_id(second, root_id, target_second, relationship);
        proof {
            assert(graph@ == self@.branched(
                other@,
                graph@.id,
                root_view,
                first.0,
                second.0,
                name@,
                relationship,
            ));
        }
        graph
    }

    /// Parallel composition, `self` and `other` together: a graph called
    /// `Parallel` with a fresh root, which holds the nodes and edges of both
    /// and a `Parallel` edge from the new root to each of the two roots.
    /// Always succeeds.
    pub fn parallel(&self, other: &Self) -> (composed: Result<Self, CompositionError>)
        ensures
            composed matches Ok(graph) && graph@.well_formed() && graph@.is_parallel_of(
                self@,
                other@,
            ),
    {
        Ok(self.branch(other, "Parallel", BaseRelationshipType::Parallel))
    }

    /// Choice composition, `self` or `other`: a graph called `Choice` with a
    /// fresh root, which holds the nodes and edges of both and a `Choice` edge
    /// from the new root to each of the two roots. Always succeeds.
    pub fn choice(&self, other: &Self) -> (composed: Result<Self, CompositionError>)
        ensures
            composed matches Ok(graph) && graph@.well_formed() && graph@.is_choice_of(
                self@,
                other@,
            ),
    {
        Ok(self.branch(other, "Choice", BaseRelationshipType::Choice))
    }
}

} // verus!
