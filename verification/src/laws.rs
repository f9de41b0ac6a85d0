//! Laws of the composition algebra, stated over the model of a graph.
//!
//! The operations that draw fresh identifiers are exact up to the identifiers
//! that they draw. The laws say what follows when those identifiers are new:
//! not in use in either operand, and different from one another.

use crate::base_types::{BaseNodeType, BaseRelationshipType};
use crate::model::{lemma_base_edges_merged, lemma_base_nodes_merged, GraphView};
use crate::node::{EdgeView, NodeView};
use vstd::prelude::*;
use vstd::set_lib::lemma_set_disjoint_lens;

verus! {

/// Two finite maps without a common key, taken together, have as many
/// entries as both have.
pub proof fn lemma_disjoint_union_len<V>(first: Map<u128, V>, second: Map<u128, V>)
    requires
        first.dom().finite(),
        second.dom().finite(),
        first.dom().disjoint(second.dom()),
    ensures
        first.union_prefer_right(second).dom() == first.dom().union(second.dom()),
        first.union_prefer_right(second).dom().finite(),
        first.union_prefer_right(second).len() == first.len() + second.len(),
{
    assert(first.union_prefer_right(second).dom() =~= first.dom().union(second.dom()));
    lemma_set_disjoint_lens(first.dom(), second.dom());
}

/// What linking holds: the edges that were there, and under each new
/// identifier the edge from the source of its position to the target. This
/// is for new identifiers that differ from one another.
pub proof fn lemma_linked(
    edges: Map<u128, EdgeView<BaseRelationshipType>>,
    sources: Seq<u128>,
    ids: Seq<u128>,
    target: u128,
    relationship: BaseRelationshipType,
)
    requires
        edges.dom().finite(),
        ids.len() == sources.len(),
        ids.no_duplicates(),
        forall|i: int| 0 <= i < ids.len() ==> !edges.contains_key(#[trigger] ids[i]),
    ensures
        ({
            let out = GraphView::linked(edges, sources, ids, target, relationship);
            &&& out.dom() == edges.dom().union(ids.to_set())
            &&& out.dom().finite()
            &&& out.len() == edges.len() + ids.len()
            &&& forall|e: u128| #[trigger] edges.contains_key(e) ==> out[e] == edges[e]
            &&& forall|i: int|
                0 <= i < ids.len() ==> out[#[trigger] ids[i]] == EdgeView::plain(
                    ids[i],
                    sources[i],
                    target,
                    relationship,
                )
        }),
    decreases sources.len(),
{
    let out = GraphView::linked(edges, sources, ids, target, relationship);
    if sources.len() == 0 {
        assert(ids.to_set() =~= Set::empty());
        assert(out.dom() =~= edges.dom().union(ids.to_set()));
    } else {
        let rest_sources = sources.drop_last();
        let rest_ids = ids.drop_last();
        let rest = GraphView::linked(edges, rest_sources, rest_ids, target, relationship);
        assert forall|i: int| 0 <= i < rest_ids.len() implies !edges.contains_key(
            #[trigger] rest_ids[i],
        ) by {
            assert(rest_ids[i] == ids[i]);
        }
        lemma_linked(edges, rest_sources, rest_ids, target, relationship);
        assert(!rest.dom().contains(ids.last())) by {
            if rest_ids.to_set().contains(ids.last()) {
                let j = choose|j: int| 0 <= j < rest_ids.len() && rest_ids[j] == ids.last();
                assert(ids[j] == ids[ids.len() - 1]);
            }
        }
        assert(ids.to_set() =~= rest_ids.to_set().insert(ids.last())) by {
            assert forall|e: u128| ids.to_set().contains(e) <==> rest_ids.to_set().insert(
                ids.last(),
            ).contains(e) by {
                if ids.to_set().contains(e) {
                    let j = choose|j: int| 0 <= j < ids.len() && ids[j] == e;
                    if j < ids.len() - 1 {
                        assert(rest_ids[j] == e);
                    }
                }
                if rest_ids.to_set().contains(e) {
                    let j = choose|j: int| 0 <= j < rest_ids.len() && rest_ids[j] == e;
                    assert(ids[j] == e);
                }
                if e == ids.last() {
                    assert(ids[ids.len() - 1] == e);
                }
            }
        }
        assert(out.dom() =~= edges.dom().union(ids.to_set()));
        assert forall|i: int| 0 <= i < ids.len() implies out[#[trigger] ids[i]] == EdgeView::plain(
            ids[i],
            sources[i],
            target,
            relationship,
        ) by {
            if i < ids.len() - 1 {
                assert(rest_ids[i] == ids[i]);
                assert(rest_sources[i] == sources[i]);
                assert(ids[i] != ids[ids.len() - 1]);
            }
        }
    }
}

/// Sequential composition of two graphs that share no node and no edge
/// identifier, with new edge identifiers: the result has the nodes of both,
/// the edges of both and one more edge for each leaf of the first graph, and
/// from each leaf of the first graph a `Sequence` edge runs to the root of
/// the second.
pub proof fn law_sequence(
    first: GraphView<BaseNodeType, BaseRelationshipType>,
    second: GraphView<BaseNodeType, BaseRelationshipType>,
    id: u128,
    leaves: Seq<u128>,
    edge_ids: Seq<u128>,
)
    requires
        first.well_formed(),
        second.well_formed(),
        first.nodes.dom().disjoint(second.nodes.dom()),
        first.edges.dom().disjoint(second.edges.dom()),
        leaves.no_duplicates(),
        leaves.to_set() == first.leaf_ids(),
        edge_ids.len() == leaves.len(),
        edge_ids.no_duplicates(),
        forall|i: int|
            0 <= i < edge_ids.len() ==> !first.edges.contains_key(#[trigger] edge_ids[i])
                && !second.edges.contains_key(edge_ids[i]),
    ensures
        ({
            let out = first.sequenced(second, id, leaves, edge_ids);
            &&& out.well_formed()
            &&& out.nodes.len() == first.nodes.len() + second.nodes.len()
            &&& out.edges.len() == first.edges.len() + second.edges.len() + first.leaf_ids().len()
            &&& forall|leaf: u128| #[trigger]
                first.leaf_ids().contains(leaf) ==> exists|e: u128| #[trigger]
                    out.edges.contains_key(e) && out.edges[e] == EdgeView::plain(
                        e,
                        leaf,
                        second.root,
                        BaseRelationshipType::Sequence,
                    )
        }),
{
    let out = first.sequenced(second, id, leaves, edge_ids);
    let both = first.edges.union_prefer_right(second.edges);
    lemma_disjoint_union_len(first.nodes, second.nodes);
    lemma_disjoint_union_len(first.edges, second.edges);
    assert forall|i: int| 0 <= i < edge_ids.len() implies !both.contains_key(
        #[trigger] edge_ids[i],
    ) by {}
    lemma_linked(both, leaves, edge_ids, second.root, BaseRelationshipType::Sequence);
    leaves.unique_seq_to_set();
    assert forall|leaf: u128| #[trigger] first.leaf_ids().contains(leaf) implies exists|e: u128|
        #[trigger] out.edges.contains_key(e) && out.edges[e] == EdgeView::plain(
            e,
            leaf,
            second.root,
            BaseRelationshipType::Sequence,
        ) by {
        assert(leaves.to_set().contains(leaf));
        let i = choose|i: int| 0 <= i < leaves.len() && leaves[i] == leaf;
        let e = edge_ids[i];
        assert(edge_ids.to_set().contains(e));
        assert(out.edges.contains_key(e));
    }
    assert forall|e: u128| #[trigger] out.edges.contains_key(e) implies out.edges[e].id == e by {
        if both.contains_key(e) {
        } else {
            assert(edge_ids.to_set().contains(e));
            let i = choose|i: int| 0 <= i < edge_ids.len() && edge_ids[i] == e;
            assert(out.edges[edge_ids[i]].id == e);
        }
    }
}

/// The edges of type `relationship` in `graph` that leave or reach the node
/// `k`.
pub open spec fn edges_at(
    graph: GraphView<BaseNodeType, BaseRelationshipType>,
    k: u128,
    relationship: BaseRelationshipType,
) -> Set<u128> {
    Set::new(
        |e: u128|
            graph.edges.contains_key(e) && graph.edges[e].relationship.relationship_type
                == relationship && (graph.edges[e].source == k || graph.edges[e].target == k),
    )
}

/// Whether no edge of `graph` leaves or reaches the node `k`.
pub open spec fn untouched(graph: GraphView<BaseNodeType, BaseRelationshipType>, k: u128) -> bool {
    forall|e: u128| #[trigger]
        graph.edges.contains_key(e) ==> graph.edges[e].source != k && graph.edges[e].target != k
}

/// Branching composition (parallel or choice) of two graphs that share no
/// edge identifier, with a new root and new edge identifiers: the root of the
/// result is neither operand's root, the result has the edges of both and
/// two more, and exactly those two are edges of the branching type at the
/// new root.
pub proof fn law_branching(
    first: GraphView<BaseNodeType, BaseRelationshipType>,
    second: GraphView<BaseNodeType, BaseRelationshipType>,
    id: u128,
    root: NodeView<BaseNodeType>,
    first_id: u128,
    second_id: u128,
    name: Seq<char>,
    relationship: BaseRelationshipType,
)
    requires
        first.well_formed(),
        second.well_formed(),
        first.edges.dom().disjoint(second.edges.dom()),
        !first.nodes.contains_key(root.id),
        !second.nodes.contains_key(root.id),
        untouched(first, root.id),
        untouched(second, root.id),
        first_id != second_id,
        !first.edges.contains_key(first_id),
        !first.edges.contains_key(second_id),
        !second.edges.contains_key(first_id),
        !second.edges.contains_key(second_id),
    ensures
        ({
            let out = first.branched(second, id, root, first_id, second_id, name, relationship);
            &&& out.well_formed()
            &&& out.root != first.root
            &&& out.root != second.root
            &&& out.edges.len() == first.edges.len() + second.edges.len() + 2
            &&& edges_at(out, out.root, relationship) == set![first_id, second_id]
            &&& edges_at(out, out.root, relationship).len() == 2
        }),
{
    let out = first.branched(second, id, root, first_id, second_id, name, relationship);
    let both = first.edges.union_prefer_right(second.edges);
    lemma_disjoint_union_len(first.edges, second.edges);
    let alone = Map::<u128, NodeView<BaseNodeType>>::empty().insert(root.id, root);
    assert(out.nodes.dom() =~= alone.dom().union(first.nodes.dom()).union(second.nodes.dom()));
    assert(alone.dom() =~= set![root.id]);
    assert(both.insert(first_id, out.edges[first_id]).dom().finite());
    assert(edges_at(out, out.root, relationship) =~= set![first_id, second_id]) by {
        assert forall|e: u128| edges_at(out, out.root, relationship).contains(e) <==> (e == first_id
            || e == second_id) by {
            if both.contains_key(e) {
                if first.edges.contains_key(e) {
                }
                if second.edges.contains_key(e) {
                }
            }
        }
    }
    assert(set![first_id, second_id].len() == 2) by {
        assert(set![first_id].insert(second_id) =~= set![first_id, second_id]);
    }
}

/// In the base universe, composing two graphs gives the first graph with the
/// nodes and edges of the second put into it: where both hold a node or an
/// edge under one identifier, that of the second stays.
pub proof fn law_base_merge(
    out: GraphView<BaseNodeType, BaseRelationshipType>,
    first: GraphView<BaseNodeType, BaseRelationshipType>,
    second: GraphView<BaseNodeType, BaseRelationshipType>,
)
    requires
        out.is_merge_of(first, second),
    ensures
        out == first.merged(second),
{
    lemma_base_nodes_merged(first.nodes, second.nodes, out.nodes);
    lemma_base_edges_merged(first.edges, second.edges, out.edges);
}

/// Putting a node into a graph under the identifier of a node that is
/// there, and an edge under the identifier of an edge that is there, keeps
/// the counts; under a new identifier it adds one.
pub proof fn law_insert_counts<N, R>(graph: GraphView<N, R>, node: NodeView<N>, edge: EdgeView<R>)
    requires
        graph.well_formed(),
    ensures
        graph.with_node(node).well_formed(),
        graph.with_edge(edge).well_formed(),
        graph.with_node(node).nodes.len() == graph.nodes.len() + if graph.nodes.contains_key(
            node.id,
        ) {
            0int
        } else {
            1
        },
        graph.with_edge(edge).edges.len() == graph.edges.len() + if graph.edges.contains_key(
            edge.id,
        ) {
            0int
        } else {
            1
        },
{
}

} // verus!
