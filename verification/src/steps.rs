//! Building a graph by a list of steps.
//!
//! A step adds one node, or one edge between nodes given by their labels. A
//! list of steps describes a graph as plain data, before any identifier is
//! drawn.

use crate::base_types::{BaseNodeType, BaseRelationshipType};
use crate::composition::GraphComposition;
use crate::model::GraphView;
use vstd::prelude::*;

verus! {

/// One step in building a graph.
#[derive(Debug)]
pub enum GraphStep<N = BaseNodeType, R = BaseRelationshipType> {
    /// Add a node with a fresh identifier.
    Node { node_type: N, label: String, data: serde_json::Value },
    /// Add an edge with a fresh identifier between two nodes given by their
    /// labels; nothing is added where a label stands for no node.
    Link { source_label: String, target_label: String, relationship: R },
}

/// What a step holds.
pub enum StepView<N, R> {
    Node { node_type: N, label: Seq<char>, data: serde_json::Value },
    Link { source_label: Seq<char>, target_label: Seq<char>, relationship: R },
}

impl<N, R> View for GraphStep<N, R> {
    type V = StepView<N, R>;

    open spec fn view(&self) -> StepView<N, R> {
        match self {
            GraphStep::Node { node_type, label, data } => StepView::Node {
                node_type: *node_type,
                label: label@,
                data: *data,
            },
            GraphStep::Link { source_label, target_label, relationship } => StepView::Link {
                source_label: source_label@,
                target_label: target_label@,
                relationship: *relationship,
            },
        }
    }
}

/// What the steps of a list hold, in order.
pub open spec fn step_views<N, R>(steps: Seq<GraphStep<N, R>>) -> Seq<StepView<N, R>> {
    Seq::new(steps.len(), |i: int| steps[i]@)
}

impl<N, R> GraphView<N, R> {
    /// Whether `after` is what one step makes of this graph.
    pub open spec fn stepped(self, after: Self, step: StepView<N, R>) -> bool {
        match step {
            StepView::Node { node_type, label, data } => self.node_added(
                after,
                node_type,
                label,
                data,
            ),
            StepView::Link { source_label, target_label, relationship } => self.edge_added_by_label(
                after,
                source_label,
                target_label,
                relationship,
            ),
        }
    }

    /// Whether `after` is what the steps, taken one after the other, make of
    /// this graph.
    pub open spec fn follows(self, after: Self, steps: Seq<StepView<N, R>>) -> bool
        decreases steps.len(),
    {
        if steps.len() == 0 {
            after == self
        } else {
            exists|before: Self|
                self.follows(before, steps.drop_last()) && #[trigger] before.stepped(
                    after,
                    steps.last(),
                )
        }
    }
}

/// One more step after a list of steps is the list with that step at its end.
pub proof fn lemma_follows_push<N, R>(
    start: GraphView<N, R>,
    before: GraphView<N, R>,
    after: GraphView<N, R>,
    steps: Seq<StepView<N, R>>,
    step: StepView<N, R>,
)
    requires
        start.follows(before, steps),
        before.stepped(after, step),
    ensures
        start.follows(after, steps.push(step)),
{
    let all = steps.push(step);
    assert(all.drop_last() =~= steps);
    assert(all.last() == step);
    assert(start.follows(before, all.drop_last()) && before.stepped(after, all.last()));
}

impl<N, R> GraphComposition<N, R> {
    /// The graph that one step makes of this graph.
    pub fn with_step(self, step: GraphStep<N, R>) -> (graph: Self)
        ensures
            graph@.well_formed(),
            self@.stepped(graph@, step@),
    {
        match step {
            GraphStep::Node { node_type, label, data } => self.add_node(
                node_type,
                label.as_str(),
                data,
            ),
            GraphStep::Link { source_label, target_label, relationship } => self.add_edge_by_label(
                source_label.as_str(),
                target_label.as_str(),
                relationship,
            ),
        }
    }

    /// The graph that the steps, taken one after the other, make of this
    /// graph.
    pub fn with_steps(self, steps: Vec<GraphStep<N, R>>) -> (graph: Self)
        ensures
            graph@.well_formed(),
            self@.follows(graph@, step_views(steps@)),
    {
        let ghost start = self@;
        let ghost all = step_views(steps@);
        self.well_formed();
        let mut graph = self;
        proof {
            assert(all.take(0) =~= Seq::empty());
        }
        for step in it: steps.into_iter()
            invariant
                it.seq() == steps@,
                all == step_views(steps@),
                start.follows(graph@, all.take(it.index())),
                graph@.well_formed(),
        {
            let ghost before = graph@;
            let ghost step_view = step@;
            assert(steps@[it.index()] == step);
            graph = graph.with_step(step);
            proof {
                lemma_follows_push(start, before, graph@, all.take(it.index()), step_view);
                assert(all.take(it.index() + 1) =~= all.take(it.index()).push(step_view));
            }
        }
        proof {
            assert(all.take(steps@.len() as int) =~= all);
        }
        graph
    }
}

} // verus!
