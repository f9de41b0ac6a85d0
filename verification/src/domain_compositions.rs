//! Graphs of domain objects: what a domain object must offer to be shown as
//! a graph, some fixed graphs of the domains, and the knowledge graph that
//! holds several domain objects side by side.

use crate::base_types::{BaseNodeType, BaseRelationshipType, NodeKind, RelationKind};
use crate::composition::{CompositionError, GraphComposition};
use crate::model::GraphView;
use crate::plan::{
    built_to_plan, member_views, plan_views, MemberValue, MemberView, PlannedStep,
    PlannedStepView,
};
use vstd::prelude::*;

verus! {

/// A domain object that can be shown as a graph.
pub trait Composable {
    /// The graph that shows the object as it is now.
    fn to_graph(&self) -> GraphComposition;
}

/// A domain object that can be made again from the graph that shows it.
pub trait Decomposable: Sized {
    /// The object that `graph` shows, or the reason why it shows none.
    fn from_graph(graph: &GraphComposition) -> Result<Self, CompositionError>;
}

/// The member `key` with a text as its value.
fn text_member(key: &str, text: &str) -> (member: (String, MemberValue))
    ensures
        member.0@ == key@,
        member.1@ == MemberView::Text(text@),
{
    (key.to_owned(), MemberValue::Text(text.to_owned()))
}

/// The member `key` with a number as its value.
fn number_member(key: &str, n: u64) -> (member: (String, MemberValue))
    ensures
        member.0@ == key@,
        member.1@ == MemberView::Number(n),
{
    (key.to_owned(), MemberValue::Number(n))
}

/// The member `key` with a list of texts as its value.
fn texts_member(key: &str, texts: Vec<String>) -> (member: (String, MemberValue))
    ensures
        member.0@ == key@,
        member.1@ == MemberView::Texts(Seq::new(texts@.len(), |i: int| texts@[i]@)),
{
    (key.to_owned(), MemberValue::Texts(texts))
}

/// The planned node of the custom type `kind` with the given label and
/// members.
fn planned_node(kind: &str, label: &str, members: Vec<(String, MemberValue)>) -> (step: PlannedStep)
    ensures
        step@ == (PlannedStepView::Node {
            node_type: NodeKind::Custom(kind@),
            label: label@,
            members: member_views(members@),
        }),
{
    PlannedStep::Node {
        node_type: BaseNodeType::Custom(kind.to_owned()),
        label: label.to_owned(),
        members,
    }
}

/// The planned edge between two labels.
fn planned_link(
    source_label: &str,
    target_label: &str,
    relationship: BaseRelationshipType,
) -> (step: PlannedStep)
    ensures
        step@ == (PlannedStepView::Link {
            source_label: source_label@,
            target_label: target_label@,
            relationship: relationship@,
        }),
{
    PlannedStep::Link {
        source_label: source_label.to_owned(),
        target_label: target_label.to_owned(),
        relationship,
    }
}

/// The plan of the document pipeline.
pub open spec fn processing_pipeline_plan() -> Seq<PlannedStepView> {
    seq![
        PlannedStepView::Node {
            node_type: NodeKind::Custom("Stage"@),
            label: "ingest"@,
            members: seq![
                ("type"@, MemberView::Text("Document Ingestion"@)),
                ("accepts"@, MemberView::Texts(seq!["pdf"@, "docx"@, "md"@, "txt"@])),
            ],
        },
        PlannedStepView::Node {
            node_type: NodeKind::Custom("Stage"@),
            label: "extract"@,
            members: seq![
                ("type"@, MemberView::Text("Text Extraction"@)),
                ("output"@, MemberView::Text("plain text"@)),
            ],
        },
        PlannedStepView::Node {
            node_type: NodeKind::Custom("Stage"@),
            label: "analyze"@,
            members: seq![
                ("type"@, MemberView::Text("NLP Analysis"@)),
                ("tasks"@, MemberView::Texts(seq!["tokenization"@, "NER"@, "sentiment"@])),
            ],
        },
        PlannedStepView::Node {
            node_type: NodeKind::Custom("Stage"@),
            label: "embed"@,
            members: seq![
                ("type"@, MemberView::Text("Semantic Embedding"@)),
                ("model"@, MemberView::Text("text-embedding-3"@)),
                ("dimensions"@, MemberView::Number(1536)),
            ],
        },
        PlannedStepView::Link {
            source_label: "root"@,
            target_label: "ingest"@,
            relationship: RelationKind::Sequence,
        },
        PlannedStepView::Link {
            source_label: "ingest"@,
            target_label: "extract"@,
            relationship: RelationKind::Sequence,
        },
        PlannedStepView::Link {
            source_label: "extract"@,
            target_label: "analyze"@,
            relationship: RelationKind::Sequence,
        },
        PlannedStepView::Link {
            source_label: "analyze"@,
            target_label: "embed"@,
            relationship: RelationKind::Sequence,
        },
    ]
}

/// The pipeline through which a document goes: four stages after the root,
/// each following the one before.
pub fn create_processing_pipeline() -> (graph: GraphComposition)
    ensures
        graph@.well_formed(),
        built_to_plan(graph@, "DocumentPipeline"@, processing_pipeline_plan()),
{
    let ingest_accepts = vec![
        "pdf".to_owned(),
        "docx".to_owned(),
        "md".to_owned(),
        "txt".to_owned(),
    ];
    assert(Seq::new(ingest_accepts@.len(), |i: int| ingest_accepts@[i]@) =~= seq![
        "pdf"@,
        "docx"@,
        "md"@,
        "txt"@,
    ]);
    let ingest_members = vec![
        text_member("type", "Document Ingestion"),
        texts_member("accepts", ingest_accepts),
    ];
    assert(member_views(ingest_members@) =~= seq![
        ("type"@, MemberView::Text("Document Ingestion"@)),
        ("accepts"@, MemberView::Texts(seq!["pdf"@, "docx"@, "md"@, "txt"@])),
    ]);
    let ingest = planned_node("Stage", "ingest", ingest_members);
    let extract_members = vec![
        text_member("type", "Text Extraction"),
        text_member("output", "plain text"),
    ];
    assert(member_views(extract_members@) =~= seq![
        ("type"@, MemberView::Text("Text Extraction"@)),
        ("output"@, MemberView::Text("plain text"@)),
    ]);
    let extract = planned_node("Stage", "extract", extract_members);
    let analyze_tasks = vec![
        "tokenization".to_owned(),
        "NER".to_owned(),
        "sentiment".to_owned(),
    ];
    assert(Seq::new(analyze_tasks@.len(), |i: int| analyze_tasks@[i]@) =~= seq![
        "tokenization"@,
        "NER"@,
        "sentiment"@,
    ]);
    let analyze_members = vec![
        text_member("type", "NLP Analysis"),
        texts_member("tasks", analyze_tasks),
    ];
    assert(member_views(analyze_members@) =~= seq![
        ("type"@, MemberView::Text("NLP Analysis"@)),
        ("tasks"@, MemberView::Texts(seq!["tokenization"@, "NER"@, "sentiment"@])),
    ]);
    let analyze = planned_node("Stage", "analyze", analyze_members);
    let embed_members = vec![
        text_member("type", "Semantic Embedding"),
        text_member("model", "text-embedding-3"),
        number_member("dimensions", 1536),
    ];
    assert(member_views(embed_members@) =~= seq![
        ("type"@, MemberView::Text("Semantic Embedding"@)),
        ("model"@, MemberView::Text("text-embedding-3"@)),
        ("dimensions"@, MemberView::Number(1536)),
    ]);
    let embed = planned_node("Stage", "embed", embed_members);
    let link_0 = planned_link("root", "ingest", BaseRelationshipType::Sequence);
    let link_1 = planned_link("ingest", "extract", BaseRelationshipType::Sequence);
    let link_2 = planned_link("extract", "analyze", BaseRelationshipType::Sequence);
    let link_3 = planned_link("analyze", "embed", BaseRelationshipType::Sequence);
    let plan = vec![
        ingest,
        extract,
        analyze,
        embed,
        link_0,
        link_1,
        link_2,
        link_3,
    ];
    assert(plan_views(plan@) =~= processing_pipeline_plan());
    GraphComposition::from_plan("DocumentPipeline", plan)
}

/// The plan of the agent network.
pub open spec fn agent_network_plan() -> Seq<PlannedStepView> {
    seq![
        PlannedStepView::Node {
            node_type: NodeKind::Custom("AgentType"@),
            label: "human_agents"@,
            members: seq![
                ("type"@, MemberView::Text("Human Agents"@)),
                ("description"@, MemberView::Text("Human-controlled agents in the system"@)),
            ],
        },
        PlannedStepView::Node {
            node_type: NodeKind::Custom("AgentType"@),
            label: "ai_agents"@,
            members: seq![
                ("type"@, MemberView::Text("AI Agents"@)),
                ("description"@, MemberView::Text("AI/ML model agents"@)),
            ],
        },
        PlannedStepView::Node {
            node_type: NodeKind::Custom("AgentType"@),
            label: "system_agents"@,
            members: seq![
                ("type"@, MemberView::Text("System Agents"@)),
                ("description"@, MemberView::Text("System/service agents"@)),
            ],
        },
        PlannedStepView::Node {
            node_type: NodeKind::Custom("Capability"@),
            label: "data_processing"@,
            members: seq![
                ("name"@, MemberView::Text("Data Processing"@)),
                ("description"@, MemberView::Text("Ability to process and transform data"@)),
            ],
        },
        PlannedStepView::Node {
            node_type: NodeKind::Custom("Capability"@),
            label: "decision_making"@,
            members: seq![
                ("name"@, MemberView::Text("Decision Making"@)),
                ("description"@, MemberView::Text("Ability to make autonomous decisions"@)),
            ],
        },
        PlannedStepView::Link {
            source_label: "root"@,
            target_label: "human_agents"@,
            relationship: RelationKind::Contains,
        },
        PlannedStepView::Link {
            source_label: "root"@,
            target_label: "ai_agents"@,
            relationship: RelationKind::Contains,
        },
        PlannedStepView::Link {
            source_label: "root"@,
            target_label: "system_agents"@,
            relationship: RelationKind::Contains,
        },
        PlannedStepView::Link {
            source_label: "ai_agents"@,
            target_label: "data_processing"@,
            relationship: RelationKind::Custom("has_capability"@),
        },
        PlannedStepView::Link {
            source_label: "ai_agents"@,
            target_label: "decision_making"@,
            relationship: RelationKind::Custom("has_capability"@),
        },
    ]
}

/// The kinds of agents and what the artificial ones are capable of.
pub fn create_agent_network() -> (graph: GraphComposition)
    ensures
        graph@.well_formed(),
        built_to_plan(graph@, "AgentNetwork"@, agent_network_plan()),
{
    let human_agents_members = vec![
        text_member("type", "Human Agents"),
        text_member("description", "Human-controlled agents in the system"),
    ];
    assert(member_views(human_agents_members@) =~= seq![
        ("type"@, MemberView::Text("Human Agents"@)),
        ("description"@, MemberView::Text("Human-controlled agents in the system"@)),
    ]);
    let human_agents = planned_node("AgentType", "human_agents", human_agents_members);
    let ai_agents_members = vec![
        text_member("type", "AI Agents"),
        text_member("description", "AI/ML model agents"),
    ];
    assert(member_views(ai_agents_members@) =~= seq![
        ("type"@, MemberView::Text("AI Agents"@)),
        ("description"@, MemberView::Text("AI/ML model agents"@)),
    ]);
    let ai_agents = planned_node("AgentType", "ai_agents", ai_agents_members);
    let system_agents_members = vec![
        text_member("type", "System Agents"),
        text_member("description", "System/service agents"),
    ];
    assert(member_views(system_agents_members@) =~= seq![
        ("type"@, MemberView::Text("System Agents"@)),
        ("description"@, MemberView::Text("System/service agents"@)),
    ]);
    let system_agents = planned_node("AgentType", "system_agents", system_agents_members);
    let data_processing_members = vec![
        text_member("name", "Data Processing"),
        text_member("description", "Ability to process and transform data"),
    ];
    assert(member_views(data_processing_members@) =~= seq![
        ("name"@, MemberView::Text("Data Processing"@)),
        ("description"@, MemberView::Text("Ability to process and transform data"@)),
    ]);
    let data_processing = planned_node("Capability", "data_processing", data_processing_members);
    let decision_making_members = vec![
        text_member("name", "Decision Making"),
        text_member("description", "Ability to make autonomous decisions"),
    ];
    assert(member_views(decision_making_members@) =~= seq![
        ("name"@, MemberView::Text("Decision Making"@)),
        ("description"@, MemberView::Text("Ability to make autonomous decisions"@)),
    ]);
    let decision_making = planned_node("Capability", "decision_making", decision_making_members);
    let link_0 = planned_link("root", "human_agents", BaseRelationshipType::Contains);
    let link_1 = planned_link("root", "ai_agents", BaseRelationshipType::Contains);
    let link_2 = planned_link("root", "system_agents", BaseRelationshipType::Contains);
    let link_3 = planned_link(
        "ai_agents",
        "data_processing",
        BaseRelationshipType::Custom("has_capability".to_owned()),
    );
    let link_4 = planned_link(
        "ai_agents",
        "decision_making",
        BaseRelationshipType::Custom("has_capability".to_owned()),
    );
    let plan = vec![
        human_agents,
        ai_agents,
        system_agents,
        data_processing,
        decision_making,
        link_0,
        link_1,
        link_2,
        link_3,
        link_4,
    ];
    assert(plan_views(plan@) =~= agent_network_plan());
    GraphComposition::from_plan("AgentNetwork", plan)
}

/// The plan of the organizational hierarchy.
pub open spec fn org_hierarchy_plan() -> Seq<PlannedStepView> {
    seq![
        PlannedStepView::Node {
            node_type: NodeKind::Custom("Level"@),
            label: "company"@,
            members: seq![
                ("level"@, MemberView::Text("Company"@)),
                ("description"@, MemberView::Text("Top-level organization"@)),
            ],
        },
        PlannedStepView::Node {
            node_type: NodeKind::Custom("Level"@),
            label: "division"@,
            members: seq![
                ("level"@, MemberView::Text("Division"@)),
                ("description"@, MemberView::Text("Major business divisions"@)),
            ],
        },
        PlannedStepView::Node {
            node_type: NodeKind::Custom("Level"@),
            label: "department"@,
            members: seq![
                ("level"@, MemberView::Text("Department"@)),
                ("description"@, MemberView::Text("Functional departments"@)),
            ],
        },
        PlannedStepView::Node {
            node_type: NodeKind::Custom("Level"@),
            label: "team"@,
            members: seq![
                ("level"@, MemberView::Text("Team"@)),
                ("description"@, MemberView::Text("Working teams"@)),
            ],
        },
        PlannedStepView::Link {
            source_label: "root"@,
            target_label: "company"@,
            relationship: RelationKind::Hierarchy,
        },
        PlannedStepView::Link {
            source_label: "company"@,
            target_label: "division"@,
            relationship: RelationKind::Hierarchy,
        },
        PlannedStepView::Link {
            source_label: "division"@,
            target_label: "department"@,
            relationship: RelationKind::Hierarchy,
        },
        PlannedStepView::Link {
            source_label: "department"@,
            target_label: "team"@,
            relationship: RelationKind::Hierarchy,
        },
    ]
}

/// The levels of an organization, each below the one before.
pub fn create_org_hierarchy() -> (graph: GraphComposition)
    ensures
        graph@.well_formed(),
        built_to_plan(graph@, "OrganizationalHierarchy"@, org_hierarchy_plan()),
{
    let company_members = vec![
        text_member("level", "Company"),
        text_member("description", "Top-level organization"),
    ];
    assert(member_views(company_members@) =~= seq![
        ("level"@, MemberView::Text("Company"@)),
        ("description"@, MemberView::Text("Top-level organization"@)),
    ]);
    let company = planned_node("Level", "company", company_members);
    let division_members = vec![
        text_member("level", "Division"),
        text_member("description", "Major business divisions"),
    ];
    assert(member_views(division_members@) =~= seq![
        ("level"@, MemberView::Text("Division"@)),
        ("description"@, MemberView::Text("Major business divisions"@)),
    ]);
    let division = planned_node("Level", "division", division_members);
    let department_members = vec![
        text_member("level", "Department"),
        text_member("description", "Functional departments"),
    ];
    assert(member_views(department_members@) =~= seq![
        ("level"@, MemberView::Text("Department"@)),
        ("description"@, MemberView::Text("Functional departments"@)),
    ]);
    let department = planned_node("Level", "department", department_members);
    let team_members = vec![
        text_member("level", "Team"),
        text_member("description", "Working teams"),
    ];
    assert(member_views(team_members@) =~= seq![
        ("level"@, MemberView::Text("Team"@)),
        ("description"@, MemberView::Text("Working teams"@)),
    ]);
    let team = planned_node("Level", "team", team_members);
    let link_0 = planned_link("root", "company", BaseRelationshipType::Hierarchy);
    let link_1 = planned_link("company", "division", BaseRelationshipType::Hierarchy);
    let link_2 = planned_link("division", "department", BaseRelationshipType::Hierarchy);
    let link_3 = planned_link("department", "team", BaseRelationshipType::Hierarchy);
    let plan = vec![
        company,
        division,
        department,
        team,
        link_0,
        link_1,
        link_2,
        link_3,
    ];
    assert(plan_views(plan@) =~= org_hierarchy_plan());
    GraphComposition::from_plan("OrganizationalHierarchy", plan)
}

/// The plan of the conceptual space.
pub open spec fn conceptual_space_plan() -> Seq<PlannedStepView> {
    seq![
        PlannedStepView::Node {
            node_type: NodeKind::Custom("Space"@),
            label: "space"@,
            members: seq![
                ("type"@, MemberView::Text("Conceptual Space"@)),
                ("description"@, MemberView::Text("High-dimensional semantic space"@)),
            ],
        },
        PlannedStepView::Node {
            node_type: NodeKind::Custom("Dimension"@),
            label: "quality_dims"@,
            members: seq![
                ("type"@, MemberView::Text("Quality Dimensions"@)),
                ("description"@, MemberView::Text("Dimensions representing quality aspects"@)),
            ],
        },
        PlannedStepView::Node {
            node_type: NodeKind::Custom("Region"@),
            label: "concepts"@,
            members: seq![
                ("type"@, MemberView::Text("Concept Regions"@)),
                (
                    "description"@,
                    MemberView::Text("Convex regions representing natural categories"@),
                ),
            ],
        },
        PlannedStepView::Link {
            source_label: "root"@,
            target_label: "space"@,
            relationship: RelationKind::Contains,
        },
        PlannedStepView::Link {
            source_label: "space"@,
            target_label: "quality_dims"@,
            relationship: RelationKind::Contains,
        },
        PlannedStepView::Link {
            source_label: "space"@,
            target_label: "concepts"@,
            relationship: RelationKind::Contains,
        },
    ]
}

/// A conceptual space with its quality dimensions and its concept regions.
pub fn create_conceptual_space_viz() -> (graph: GraphComposition)
    ensures
        graph@.well_formed(),
        built_to_plan(graph@, "ConceptualSpaceVisualization"@, conceptual_space_plan()),
{
    let space_members = vec![
        text_member("type", "Conceptual Space"),
        text_member("description", "High-dimensional semantic space"),
    ];
    assert(member_views(space_members@) =~= seq![
        ("type"@, MemberView::Text("Conceptual Space"@)),
        ("description"@, MemberView::Text("High-dimensional semantic space"@)),
    ]);
    let space = planned_node("Space", "space", space_members);
    let quality_dims_members = vec![
        text_member("type", "Quality Dimensions"),
        text_member("description", "Dimensions representing quality aspects"),
    ];
    assert(member_views(quality_dims_members@) =~= seq![
        ("type"@, MemberView::Text("Quality Dimensions"@)),
        ("description"@, MemberView::Text("Dimensions representing quality aspects"@)),
    ]);
    let quality_dims = planned_node("Dimension", "quality_dims", quality_dims_members);
    let concepts_members = vec![
        text_member("type", "Concept Regions"),
        text_member("description", "Convex regions representing natural categories"),
    ];
    assert(member_views(concepts_members@) =~= seq![
        ("type"@, MemberView::Text("Concept Regions"@)),
        ("description"@, MemberView::Text("Convex regions representing natural categories"@)),
    ]);
    let concepts = planned_node("Region", "concepts", concepts_members);
    let link_0 = planned_link("root", "space", BaseRelationshipType::Contains);
    let link_1 = planned_link("space", "quality_dims", BaseRelationshipType::Contains);
    let link_2 = planned_link("space", "concepts", BaseRelationshipType::Contains);
    let plan = vec![
        space,
        quality_dims,
        concepts,
        link_0,
        link_1,
        link_2,
    ];
    assert(plan_views(plan@) =~= conceptual_space_plan());
    GraphComposition::from_plan("ConceptualSpaceVisualization", plan)
}

/// What the graphs of a list hold, in order.
pub open spec fn graph_views(graphs: Seq<GraphComposition>) -> Seq<
    GraphView<BaseNodeType, BaseRelationshipType>,
> {
    Seq::new(graphs.len(), |i: int| graphs[i]@)
}

/// Whether `graph` is a knowledge graph of `parts`: for no part, a fresh
/// composite graph called `KnowledgeGraph`; for one part, that part; for more,
/// a parallel composition of a knowledge graph of all parts but the last with
/// the last part.
pub open spec fn is_knowledge_graph_of(
    graph: GraphView<BaseNodeType, BaseRelationshipType>,
    parts: Seq<GraphView<BaseNodeType, BaseRelationshipType>>,
) -> bool
    decreases parts.len(),
{
    if parts.len() == 0 {
        crate::algebra::is_composite(graph, "KnowledgeGraph"@)
    } else if parts.len() == 1 {
        graph == parts[0]
    } else {
        exists|before: GraphView<BaseNodeType, BaseRelationshipType>|
            is_knowledge_graph_of(before, parts.drop_last()) && #[trigger] graph.is_parallel_of(
                before,
                parts.last(),
            )
    }
}

/// The knowledge graph of the given graphs: they are composed in parallel,
/// one after the other.
pub fn knowledge_graph_of(graphs: Vec<GraphComposition>) -> (graph: GraphComposition)
    ensures
        graph@.well_formed(),
        is_knowledge_graph_of(graph@, graph_views(graphs@)),
{
    let ghost parts = graph_views(graphs@);
    let mut composed: Option<GraphComposition> = None;
    for part in it: graphs.into_iter()
        invariant
            it.seq() == graphs@,
            parts == graph_views(graphs@),
            it.index() == 0 <==> composed is None,
            composed matches Some(graph) ==> graph@.well_formed() && is_knowledge_graph_of(
                graph@,
                parts.take(it.index()),
            ),
    {
        assert(graphs@[it.index()] == part);
        let ghost walked = parts.take(it.index() + 1);
        proof {
            assert(walked.drop_last() =~= parts.take(it.index()));
            assert(walked.last() == part@);
        }
        composed =
        match composed {
            None => {
                part.well_formed();
                assert(walked[0] == part@);
                Some(part)
            },
            Some(graph) => {
                let ghost before = graph@;
                match graph.parallel(&part) {
                    Ok(next) => {
                        assert(next@.is_parallel_of(before, walked.last()));
                        Some(next)
                    },
                    Err(_) => Some(graph),
                }
            },
        };
    }
    proof {
        assert(parts.take(graphs@.len() as int) =~= parts);
    }
    match composed {
        Some(graph) => graph,
        None => GraphComposition::composite("KnowledgeGraph"),
    }
}

/// The knowledge graph of the given domain objects: the graphs that show
/// them, composed in parallel, one after the other.
pub fn compose_knowledge_graph<T: Composable>(objects: &[T]) -> (graph: GraphComposition)
    ensures
        graph@.well_formed(),
        exists|graphs: Seq<GraphComposition>|
            {
                &&& graphs.len() == objects@.len()
                &&& forall|i: int|
                    0 <= i < graphs.len() ==> call_ensures(
                        T::to_graph,
                        (&objects@[i],),
                        #[trigger] graphs[i],
                    )
                &&& is_knowledge_graph_of(graph@, #[trigger] graph_views(graphs))
            },
{
    let mut graphs: Vec<GraphComposition> = Vec::new();
    let mut i: usize = 0;
    while i < objects.len()
        invariant
            i <= objects@.len(),
            graphs@.len() == i,
            forall|j: int|
                0 <= j < i ==> call_ensures(T::to_graph, (&objects@[j],), #[trigger] graphs@[j]),
        decreases objects@.len() - i,
    {
        graphs.push(objects[i].to_graph());
        i += 1;
    }
    let ghost shown = graphs@;
    let graph = knowledge_graph_of(graphs);
    assert(is_knowledge_graph_of(graph@, graph_views(shown)));
    graph
}

} // verus!
