//! A graph taken apart into plain lists, and put together again.
//!
//! The parts are what a graph is stored or sent as: its identifiers, its
//! nodes and edges as lists, and its metadata.

use crate::base_types::{BaseNodeType, BaseRelationshipType, Metadata};
use crate::composition::{CompositionError, CompositionType, GraphComposition};
use crate::identifiers::{GraphId, NodeId};
use crate::model::{edge_views, edges_keyed, node_views, nodes_keyed, GraphView};
use crate::node::{CompositionEdge, CompositionNode, EdgeView, NodeView};
use std::collections::HashMap;
use vstd::prelude::*;
use vstd::std_specs::iter::IteratorSpec;

verus! {

broadcast use vstd::std_specs::hash::group_hash_axioms;

/// The map that a list of nodes stands for: each node under its identifier;
/// of two nodes with one identifier, the later one.
pub open spec fn nodes_by_id<N>(nodes: Seq<CompositionNode<N>>) -> Map<u128, NodeView<N>>
    decreases nodes.len(),
{
    if nodes.len() == 0 {
        Map::empty()
    } else {
        nodes_by_id(nodes.drop_last()).insert(nodes.last().id.0, nodes.last()@)
    }
}

/// The map that a list of edges stands for: each edge under its identifier;
/// of two edges with one identifier, the later one.
pub open spec fn edges_by_id<R>(edges: Seq<CompositionEdge<R>>) -> Map<u128, EdgeView<R>>
    decreases edges.len(),
{
    if edges.len() == 0 {
        Map::empty()
    } else {
        edges_by_id(edges.drop_last()).insert(edges.last().id.0, edges.last()@)
    }
}

/// The parts of a graph.
#[derive(Debug)]
pub struct GraphParts<N = BaseNodeType, R = BaseRelationshipType> {
    pub id: GraphId,
    pub composition_root: NodeId,
    pub composition_type: CompositionType,
    pub nodes: Vec<CompositionNode<N>>,
    pub edges: Vec<CompositionEdge<R>>,
    pub metadata: Metadata,
}

impl<N, R> View for GraphParts<N, R> {
    type V = GraphView<N, R>;

    /// What the graph made of the parts holds.
    open spec fn view(&self) -> GraphView<N, R> {
        GraphView {
            id: self.id.value,
            root: self.composition_root.0,
            composition_type: self.composition_type@,
            nodes: nodes_by_id(self.nodes@),
            edges: edges_by_id(self.edges@),
            metadata: self.metadata@,
        }
    }
}

/// The keys of a map, each once.
fn keys_of<V>(map: &HashMap<u128, V>) -> (keys: Vec<u128>)
    ensures
        keys@.no_duplicates(),
        keys@.to_set() == map@.dom(),
{
    let mut keys: Vec<u128> = Vec::new();
    let ghost all = map.keys().remaining();
    for k in it: map.keys()
        invariant
            it.seq() == all,
            keys@ == all.unref().take(it.index()),
    {
        keys.push(*k);
    }
    proof {
        assert(keys@ =~= all.unref());
        assert forall|i: int, j: int|
            0 <= i < keys@.len() && 0 <= j < keys@.len() && i != j implies keys@[i] != keys@[j] by {
            assert(*all[i] != *all[j]);
        }
    }
    keys
}

/// The nodes of a map as a list that stands for the map.
fn list_nodes<N>(nodes: HashMap<u128, CompositionNode<N>>) -> (list: Vec<CompositionNode<N>>)
    requires
        nodes_keyed(nodes@),
    ensures
        nodes_by_id(list@) == node_views(nodes@),
{
    let ghost whole = nodes@;
    let keys = keys_of(&nodes);
    let mut nodes = nodes;
    let mut list: Vec<CompositionNode<N>> = Vec::new();
    let mut i: usize = 0;
    while i < keys.len()
        invariant
            i <= keys@.len(),
            keys@.no_duplicates(),
            keys@.to_set() == whole.dom(),
            nodes_keyed(whole),
            forall|k: u128| #[trigger]
                nodes@.contains_key(k) <==> whole.contains_key(k) && !keys@.take(
                    i as int,
                ).contains(k),
            forall|k: u128| #[trigger] nodes@.contains_key(k) ==> nodes@[k] == whole[k],
            nodes_by_id(list@).dom() == keys@.take(i as int).to_set(),
            forall|k: u128| #[trigger]
                nodes_by_id(list@).contains_key(k) ==> nodes_by_id(list@)[k] == whole[k]@,
        decreases keys@.len() - i,
    {
        let key = keys[i];
        let ghost listed = list@;
        proof {
            assert(keys@.to_set().contains(key));
            let done = keys@.take(i as int);
            assert(!done.contains(key)) by {
                if done.contains(key) {
                    let j = choose|j: int| 0 <= j < done.len() && done[j] == key;
                    assert(keys@[j] == keys@[i as int]);
                }
            }
        }
        match nodes.remove(&key) {
            Some(node) => {
                list.push(node);
                proof {
                    assert(node == whole[key]);
                    assert(list@.drop_last() =~= listed);
                    assert(keys@.take(i + 1) =~= keys@.take(i as int).push(key));
                    let done = keys@.take(i as int);
                    let next = keys@.take(i + 1);
                    assert(next[i as int] == key);
                    assert forall|j: int| 0 <= j < done.len() implies next[j] == done[j] by {}
                    assert(nodes_by_id(list@).dom() =~= next.to_set()) by {
                        assert forall|k: u128|
                            nodes_by_id(list@).contains_key(k) <==> next.to_set().contains(k) by {
                            if done.to_set().contains(k) {
                                let j = choose|j: int| 0 <= j < done.len() && done[j] == k;
                                assert(next[j] == k);
                            }
                            if next.to_set().contains(k) {
                                let j = choose|j: int| 0 <= j < next.len() && next[j] == k;
                                if j < i {
                                    assert(done[j] == k);
                                }
                            }
                        }
                    }
                    assert forall|k: u128| #[trigger]
                        nodes@.contains_key(k) <==> whole.contains_key(k) && !next.contains(k) by {
                        if next.contains(k) && k != key {
                            let j = choose|j: int| 0 <= j < next.len() && next[j] == k;
                            assert(done[j] == k);
                        }
                        if done.contains(k) {
                            let j = choose|j: int| 0 <= j < done.len() && done[j] == k;
                            assert(next[j] == k);
                        }
                    }
                }
            },
            None => {
                assert(false);
            },
        }
        i += 1;
    }
    proof {
        assert(keys@.take(keys@.len() as int) =~= keys@);
        assert(nodes_by_id(list@) =~= node_views(whole));
    }
    list
}

/// The edges of a map as a list that stands for the map.
fn list_edges<R>(edges: HashMap<u128, CompositionEdge<R>>) -> (list: Vec<CompositionEdge<R>>)
    requires
        edges_keyed(edges@),
    ensures
        edges_by_id(list@) == edge_views(edges@),
{
    let ghost whole = edges@;
    let keys = keys_of(&edges);
    let mut edges = edges;
    let mut list: Vec<CompositionEdge<R>> = Vec::new();
    let mut i: usize = 0;
    while i < keys.len()
        invariant
            i <= keys@.len(),
            keys@.no_duplicates(),
            keys@.to_set() == whole.dom(),
            edges_keyed(whole),
            forall|k: u128| #[trigger]
                edges@.contains_key(k) <==> whole.contains_key(k) && !keys@.take(
                    i as int,
                ).contains(k),
            forall|k: u128| #[trigger] edges@.contains_key(k) ==> edges@[k] == whole[k],
            edges_by_id(list@).dom() == keys@.take(i as int).to_set(),
            forall|k: u128| #[trigger]
                edges_by_id(list@).contains_key(k) ==> edges_by_id(list@)[k] == whole[k]@,
        decreases keys@.len() - i,
    {
        let key = keys[i];
        let ghost listed = list@;
        proof {
            assert(keys@.to_set().contains(key));
            let done = keys@.take(i as int);
            assert(!done.contains(key)) by {
                if done.contains(key) {
                    let j = choose|j: int| 0 <= j < done.len() && done[j] == key;
                    assert(keys@[j] == keys@[i as int]);
                }
            }
        }
        match edges.remove(&key) {
            Some(edge) => {
                list.push(edge);
                proof {
                    assert(edge == whole[key]);
                    assert(list@.drop_last() =~= listed);
                    assert(keys@.take(i + 1) =~= keys@.take(i as int).push(key));
                    let done = keys@.take(i as int);
                    let next = keys@.take(i + 1);
                    assert(next[i as int] == key);
                    assert forall|j: int| 0 <= j < done.len() implies next[j] == done[j] by {}
                    assert(edges_by_id(list@).dom() =~= next.to_set()) by {
                        assert forall|k: u128|
                            edges_by_id(list@).contains_key(k) <==> next.to_set().contains(k) by {
                            if done.to_set().contains(k) {
                                let j = choose|j: int| 0 <= j < done.len() && done[j] == k;
                                assert(next[j] == k);
                            }
                            if next.to_set().contains(k) {
                                let j = choose|j: int| 0 <= j < next.len() && next[j] == k;
                                if j < i {
                                    assert(done[j] == k);
                                }
                            }
                        }
                    }
                    assert forall|k: u128| #[trigger]
                        edges@.contains_key(k) <==> whole.contains_key(k) && !next.contains(k) by {
                        if next.contains(k) && k != key {
                            let j = choose|j: int| 0 <= j < next.len() && next[j] == k;
                            assert(done[j] == k);
                        }
                        if done.contains(k) {
                            let j = choose|j: int| 0 <= j < done.len() && done[j] == k;
                            assert(next[j] == k);
                        }
                    }
                }
            },
            None => {
                assert(false);
            },
        }
        i += 1;
    }
    proof {
        assert(keys@.take(keys@.len() as int) =~= keys@);
        assert(edges_by_id(list@) =~= edge_views(whole));
    }
    list
}

/// The map that a list of nodes stands for.
fn map_nodes_by_id<N>(list: Vec<CompositionNode<N>>) -> (nodes: HashMap<u128, CompositionNode<N>>)
    ensures
        nodes_keyed(nodes@),
        node_views(nodes@) == nodes_by_id(list@),
{
    let mut nodes: HashMap<u128, CompositionNode<N>> = HashMap::new();
    proof {
        assert(list@.take(0) =~= Seq::empty());
        assert(node_views(nodes@) =~= Map::empty());
    }
    for node in it: list.into_iter()
        invariant
            it.seq() == list@,
            nodes_keyed(nodes@),
            node_views(nodes@) == nodes_by_id(list@.take(it.index())),
    {
        let ghost before = nodes@;
        assert(list@[it.index()] == node);
        nodes.insert(node.id.0, node);
        proof {
            let walked = list@.take(it.index() + 1);
            assert(walked.drop_last() =~= list@.take(it.index()));
            assert(walked.last() == node);
            assert(node_views(nodes@) =~= node_views(before).insert(node.id.0, node@));
        }
    }
    proof {
        assert(list@.take(list@.len() as int) =~= list@);
    }
    nodes
}

/// The map that a list of edges stands for.
fn map_edges_by_id<R>(list: Vec<CompositionEdge<R>>) -> (edges: HashMap<u128, CompositionEdge<R>>)
    ensures
        edges_keyed(edges@),
        edge_views(edges@) == edges_by_id(list@),
{
    let mut edges: HashMap<u128, CompositionEdge<R>> = HashMap::new();
    proof {
        assert(list@.take(0) =~= Seq::empty());
        assert(edge_views(edges@) =~= Map::empty());
    }
    for edge in it: list.into_iter()
        invariant
            it.seq() == list@,
            edges_keyed(edges@),
            edge_views(edges@) == edges_by_id(list@.take(it.index())),
    {
        let ghost before = edges@;
        assert(list@[it.index()] == edge);
        edges.insert(edge.id.0, edge);
        proof {
            let walked = list@.take(it.index() + 1);
            assert(walked.drop_last() =~= list@.take(it.index()));
            assert(walked.last() == edge);
            assert(edge_views(edges@) =~= edge_views(before).insert(edge.id.0, edge@));
        }
    }
    proof {
        assert(list@.take(list@.len() as int) =~= list@);
    }
    edges
}

impl<N, R> GraphComposition<N, R> {
    /// The parts of the graph. They stand for the graph.
    pub fn into_parts(self) -> (parts: GraphParts<N, R>)
        ensures
            self@.well_formed(),
            parts@ == self@,
    {
        let (id, composition_root, composition_type, nodes, edges, metadata) = self.into_maps();
        GraphParts {
            id,
            composition_root,
            composition_type,
            nodes: list_nodes(nodes),
            edges: list_edges(edges),
            metadata,
        }
    }

    /// The graph that the parts stand for, where the root is among the nodes;
    /// where it is not, the error that says so.
    pub fn from_parts(parts: GraphParts<N, R>) -> (made: Result<Self, CompositionError>)
        ensures
            match made {
                Ok(graph) => {
                    &&& parts@.nodes.contains_key(parts@.root)
                    &&& graph@ == parts@
                    &&& graph@.well_formed()
                },
                Err(error) => {
                    &&& !parts@.nodes.contains_key(parts@.root)
                    &&& error == CompositionError::NodeNotFound(parts.composition_root)
                },
            },
    {
        let root = parts.composition_root;
        let nodes = map_nodes_by_id(parts.nodes);
        let edges = map_edges_by_id(parts.edges);
        proof {
            assert(node_views(nodes@).dom() =~= nodes@.dom());
        }
        if nodes.contains_key(&root.0) {
            Ok(
                GraphComposition::assemble(
                    parts.id,
                    root,
                    parts.composition_type,
                    nodes,
                    edges,
                    parts.metadata,
                ),
            )
        } else {
            Err(CompositionError::NodeNotFound(root))
        }
    }
}

/// Taking a graph apart and putting the parts together again gives a graph
/// that holds what the first one held.
pub proof fn law_parts_round_trip<N, R>(
    graph: GraphComposition<N, R>,
    parts: GraphParts<N, R>,
    made: Result<GraphComposition<N, R>, CompositionError>,
)
    requires
        call_ensures(GraphComposition::<N, R>::into_parts, (graph,), parts),
        call_ensures(GraphComposition::<N, R>::from_parts, (parts,), made),
    ensures
        made matches Ok(again) && again@ == graph@,
{
}

} // verus!
