//! Graphs written down as plain data: what each node holds and which labels
//! each edge joins, before any identifier is drawn or any JSON value is made.

use crate::algebra::is_composite;
use crate::base_types::{BaseNodeType, BaseRelationshipType, NodeKind, RelationKind};
use crate::composition::GraphComposition;
use crate::json::{
    array_value, empty_object, is_empty_object, json_array, json_object, json_string, json_u64,
    number_value, string_value, with_member,
};
use crate::model::GraphView;
use crate::steps::{step_views, GraphStep, StepView};
use vstd::prelude::*;

verus! {

/// The value of a member of a JSON object: a text, a number, or a list of
/// texts.
#[derive(Debug)]
pub enum MemberValue {
    Text(String),
    Number(u64),
    Texts(Vec<String>),
}

/// What a member value holds.
pub enum MemberView {
    Text(Seq<char>),
    Number(u64),
    Texts(Seq<Seq<char>>),
}

impl View for MemberValue {
    type V = MemberView;

    open spec fn view(&self) -> MemberView {
        match self {
            MemberValue::Text(text) => MemberView::Text(text@),
            MemberValue::Number(n) => MemberView::Number(*n),
            MemberValue::Texts(texts) => MemberView::Texts(
                Seq::new(texts@.len(), |i: int| texts@[i]@),
            ),
        }
    }
}

/// What the members of a list hold, in order, each with its key.
pub open spec fn member_views(members: Seq<(String, MemberValue)>) -> Seq<(Seq<char>, MemberView)> {
    Seq::new(members.len(), |i: int| (members[i].0@, members[i].1@))
}

/// Whether the JSON value `value` is what `member` describes: the JSON
/// string of a text, the JSON number of a number, the JSON array of the JSON
/// strings of a list of texts.
pub open spec fn member_holds(value: serde_json::Value, member: MemberView) -> bool {
    match member {
        MemberView::Text(text) => json_string(value) == Some(text),
        MemberView::Number(n) => json_u64(value) == Some(n),
        MemberView::Texts(texts) => {
            &&& json_array(value) matches Some(items)
            &&& items.len() == texts.len()
            &&& forall|i: int|
                0 <= i < texts.len() ==> json_string(#[trigger] items[i]) == Some(texts[i])
        },
    }
}

/// Whether `value` is the JSON object `rest` with `member` put under `key`.
pub open spec fn extends(
    value: serde_json::Value,
    rest: serde_json::Value,
    key: Seq<char>,
    member: serde_json::Value,
) -> bool {
    &&& json_object(rest) matches Some(members)
    &&& json_object(value) == Some(members.insert(key, member))
}

/// Whether `value` is the JSON object that comes of putting the described
/// members, one after the other, into the empty object.
pub open spec fn object_holds(
    value: serde_json::Value,
    members: Seq<(Seq<char>, MemberView)>,
) -> bool
    decreases members.len(),
{
    if members.len() == 0 {
        is_empty_object(value)
    } else {
        exists|rest: serde_json::Value, member: serde_json::Value|
            {
                &&& #[trigger] extends(value, rest, members.last().0, member)
                &&& object_holds(rest, members.drop_last())
                &&& member_holds(member, members.last().1)
            }
    }
}

/// The JSON value that `member` describes.
pub fn member_value(member: &MemberValue) -> (value: serde_json::Value)
    ensures
        member_holds(value, member@),
{
    match member {
        MemberValue::Text(text) => string_value(text.clone()),
        MemberValue::Number(n) => number_value(*n),
        MemberValue::Texts(texts) => {
            let mut items: Vec<serde_json::Value> = Vec::new();
            let mut i: usize = 0;
            while i < texts.len()
                invariant
                    i <= texts@.len(),
                    items@.len() == i,
                    forall|j: int|
                        0 <= j < i ==> json_string(#[trigger] items@[j]) == Some(texts@[j]@),
                decreases texts@.len() - i,
            {
                items.push(string_value(texts[i].clone()));
                i += 1;
            }
            array_value(items)
        },
    }
}

/// The JSON object with the described members.
pub fn object_value(members: &Vec<(String, MemberValue)>) -> (value: serde_json::Value)
    ensures
        object_holds(value, member_views(members@)),
{
    let ghost all = member_views(members@);
    let mut value = empty_object();
    let mut i: usize = 0;
    proof {
        assert(all.take(0) =~= Seq::empty());
    }
    while i < members.len()
        invariant
            i <= members@.len(),
            all == member_views(members@),
            json_object(value).is_some(),
            object_holds(value, all.take(i as int)),
        decreases members@.len() - i,
    {
        let ghost rest = value;
        let member = member_value(&members[i].1);
        let ghost made = member;
        value = with_member(value, members[i].0.clone(), member);
        proof {
            let walked = all.take(i + 1);
            assert(walked.drop_last() =~= all.take(i as int));
            assert(walked.last() == all[i as int]);
            assert(extends(value, rest, walked.last().0, made));
        }
        i += 1;
    }
    proof {
        assert(all.take(members@.len() as int) =~= all);
    }
    value
}

/// One step of a plan: a node with the members of its data, or an edge
/// between two labels.
#[derive(Debug)]
pub enum PlannedStep {
    Node { node_type: BaseNodeType, label: String, members: Vec<(String, MemberValue)> },
    Link { source_label: String, target_label: String, relationship: BaseRelationshipType },
}

/// What a planned step holds.
pub enum PlannedStepView {
    Node { node_type: NodeKind, label: Seq<char>, members: Seq<(Seq<char>, MemberView)> },
    Link { source_label: Seq<char>, target_label: Seq<char>, relationship: RelationKind },
}

impl View for PlannedStep {
    type V = PlannedStepView;

    open spec fn view(&self) -> PlannedStepView {
        match self {
            PlannedStep::Node { node_type, label, members } => PlannedStepView::Node {
                node_type: node_type@,
                label: label@,
                members: member_views(members@),
            },
            PlannedStep::Link { source_label, target_label, relationship } => {
                PlannedStepView::Link {
                    source_label: source_label@,
                    target_label: target_label@,
                    relationship: relationship@,
                }
            },
        }
    }
}

/// What the steps of a plan hold, in order.
pub open spec fn plan_views(plan: Seq<PlannedStep>) -> Seq<PlannedStepView> {
    Seq::new(plan.len(), |i: int| plan[i]@)
}

/// Whether the step `step` carries out the planned step `planned`.
pub open spec fn carries_out(
    step: StepView<BaseNodeType, BaseRelationshipType>,
    planned: PlannedStepView,
) -> bool {
    match planned {
        PlannedStepView::Node { node_type, label, members } => {
            &&& step matches StepView::Node { node_type: made_type, label: made_label, data }
            &&& made_type@ == node_type
            &&& made_label == label
            &&& object_holds(data, members)
        },
        PlannedStepView::Link { source_label, target_label, relationship } => {
            &&& step matches StepView::Link {
                source_label: made_source,
                target_label: made_target,
                relationship: made_relationship,
            }
            &&& made_source == source_label
            &&& made_target == target_label
            &&& made_relationship@ == relationship
        },
    }
}

/// Whether `graph` is a graph built to a plan: what some steps that carry
/// out the plan, one for one, make of a fresh composite graph called `name`.
pub open spec fn built_to_plan(
    graph: GraphView<BaseNodeType, BaseRelationshipType>,
    name: Seq<char>,
    plan: Seq<PlannedStepView>,
) -> bool {
    exists|
        start: GraphView<BaseNodeType, BaseRelationshipType>,
        steps: Seq<StepView<BaseNodeType, BaseRelationshipType>>,
    |
        {
            &&& is_composite(start, name)
            &&& steps.len() == plan.len()
            &&& forall|i: int| 0 <= i < plan.len() ==> carries_out(#[trigger] steps[i], plan[i])
            &&& #[trigger] start.follows(graph, steps)
        }
}

impl PlannedStep {
    /// The step that carries out this planned step.
    pub fn into_step(self) -> (step: GraphStep)
        ensures
            carries_out(step@, self@),
    {
        match self {
            PlannedStep::Node { node_type, label, members } => GraphStep::Node {
                node_type,
                label,
                data: object_value(&members),
            },
            PlannedStep::Link { source_label, target_label, relationship } => GraphStep::Link {
                source_label,
                target_label,
                relationship,
            },
        }
    }
}

impl GraphComposition<BaseNodeType, BaseRelationshipType> {
    /// The composite graph called `name` built to the plan.
    pub fn from_plan(name: &str, plan: Vec<PlannedStep>) -> (graph: Self)
        ensures
            graph@.well_formed(),
            built_to_plan(graph@, name@, plan_views(plan@)),
    {
        let ghost views = plan_views(plan@);
        let mut steps: Vec<GraphStep> = Vec::new();
        for planned in it: plan.into_iter()
            invariant
                it.seq() == plan@,
                views == plan_views(plan@),
                steps@.len() == it.index(),
                forall|i: int| 0 <= i < it.index() ==> carries_out(#[trigger] steps@[i]@, views[i]),
        {
            assert(plan@[it.index()] == planned);
            steps.push(planned.into_step());
        }
        let start = GraphComposition::composite(name);
        let ghost start_view = start@;
        let ghost made = step_views(steps@);
        let graph = start.with_steps(steps);
        proof {
            assert forall|i: int| 0 <= i < views.len() implies carries_out(
                #[trigger] made[i],
                views[i],
            ) by {
                assert(made[i] == steps@[i]@);
            }
            assert(start_view.follows(graph@, made));
        }
        graph
    }
}

} // verus!
