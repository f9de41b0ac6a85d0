use cim_compose::plan::{member_value, object_value};
use cim_compose::{
    compose_knowledge_graph, create_agent_network, Composable, create_conceptual_space_viz,
    create_org_hierarchy, create_processing_pipeline, knowledge_graph_of, BaseNodeType,
    BaseRelationshipType, CompositionNode, CompositionType, GraphComposition, GraphStep,
    MemberValue, NodeId, PlannedStep,
};
use serde_json::Value as JsonValue;

fn object(members: Vec<(&str, JsonValue)>) -> JsonValue {
    let mut map = serde_json::Map::new();
    for (key, value) in members {
        map.insert(key.to_string(), value);
    }
    JsonValue::Object(map)
}

fn texts(items: Vec<&str>) -> JsonValue {
    JsonValue::Array(items.into_iter().map(JsonValue::from).collect())
}

fn node<'a>(graph: &'a GraphComposition, label: &str) -> &'a CompositionNode {
    let mut found = graph.nodes().values().filter(|node| node.label == label);
    let node = found.next().unwrap();
    assert!(found.next().is_none());
    node
}

fn has_edge(
    graph: &GraphComposition,
    source: NodeId,
    target: NodeId,
    kind: &BaseRelationshipType,
) -> bool {
    graph.edges().values().any(|edge| {
        edge.source == source
            && edge.target == target
            && &edge.relationship.relationship_type == kind
            && !edge.relationship.bidirectional
    })
}

#[test]
fn processing_pipeline_is_a_chain_of_stages() {
    let graph = create_processing_pipeline();
    assert_eq!(graph.nodes().len(), 5);
    assert_eq!(graph.edges().len(), 4);
    assert_eq!(
        graph.composition_type(),
        &CompositionType::Composite { structure_type: "DocumentPipeline".to_string() }
    );
    assert_eq!(graph.metadata().name, "DocumentPipeline");
    let stage = BaseNodeType::Custom("Stage".to_string());
    let ingest = node(&graph, "ingest");
    assert_eq!(ingest.node_type, stage);
    assert_eq!(
        ingest.data,
        object(vec![
            ("type", JsonValue::from("Document Ingestion")),
            ("accepts", texts(vec!["pdf", "docx", "md", "txt"])),
        ])
    );
    let extract = node(&graph, "extract");
    assert_eq!(
        extract.data,
        object(vec![
            ("type", JsonValue::from("Text Extraction")),
            ("output", JsonValue::from("plain text")),
        ])
    );
    let analyze = node(&graph, "analyze");
    assert_eq!(
        analyze.data,
        object(vec![
            ("type", JsonValue::from("NLP Analysis")),
            ("tasks", texts(vec!["tokenization", "NER", "sentiment"])),
        ])
    );
    let embed = node(&graph, "embed");
    assert_eq!(embed.node_type, stage);
    assert_eq!(
        embed.data,
        object(vec![
            ("type", JsonValue::from("Semantic Embedding")),
            ("model", JsonValue::from("text-embedding-3")),
            ("dimensions", JsonValue::from(1536)),
        ])
    );
    let root = graph.composition_root();
    let sequence = BaseRelationshipType::Sequence;
    assert!(has_edge(&graph, root, ingest.id, &sequence));
    assert!(has_edge(&graph, ingest.id, extract.id, &sequence));
    assert!(has_edge(&graph, extract.id, analyze.id, &sequence));
    assert!(has_edge(&graph, analyze.id, embed.id, &sequence));
    assert_eq!(graph.find_leaves(), vec![embed.id]);
    assert_eq!(graph.find_roots(), vec![root]);
}

#[test]
fn agent_network_has_types_and_capabilities() {
    let graph = create_agent_network();
    assert_eq!(graph.nodes().len(), 6);
    assert_eq!(graph.edges().len(), 5);
    assert_eq!(graph.metadata().name, "AgentNetwork");
    let root = graph.composition_root();
    let ai = node(&graph, "ai_agents");
    assert_eq!(ai.node_type, BaseNodeType::Custom("AgentType".to_string()));
    assert_eq!(
        ai.data,
        object(vec![
            ("type", JsonValue::from("AI Agents")),
            ("description", JsonValue::from("AI/ML model agents")),
        ])
    );
    let human = node(&graph, "human_agents");
    let system = node(&graph, "system_agents");
    let data = node(&graph, "data_processing");
    assert_eq!(data.node_type, BaseNodeType::Custom("Capability".to_string()));
    assert_eq!(
        data.data,
        object(vec![
            ("name", JsonValue::from("Data Processing")),
            ("description", JsonValue::from("Ability to process and transform data")),
        ])
    );
    let decision = node(&graph, "decision_making");
    let contains = BaseRelationshipType::Contains;
    let capability = BaseRelationshipType::Custom("has_capability".to_string());
    assert!(has_edge(&graph, root, human.id, &contains));
    assert!(has_edge(&graph, root, ai.id, &contains));
    assert!(has_edge(&graph, root, system.id, &contains));
    assert!(has_edge(&graph, ai.id, data.id, &capability));
    assert!(has_edge(&graph, ai.id, decision.id, &capability));
}

#[test]
fn org_hierarchy_descends_level_by_level() {
    let graph = create_org_hierarchy();
    assert_eq!(graph.nodes().len(), 5);
    assert_eq!(graph.edges().len(), 4);
    assert_eq!(graph.metadata().name, "OrganizationalHierarchy");
    let root = graph.composition_root();
    let company = node(&graph, "company");
    let division = node(&graph, "division");
    let department = node(&graph, "department");
    let team = node(&graph, "team");
    assert_eq!(company.node_type, BaseNodeType::Custom("Level".to_string()));
    assert_eq!(
        team.data,
        object(vec![
            ("level", JsonValue::from("Team")),
            ("description", JsonValue::from("Working teams")),
        ])
    );
    let hierarchy = BaseRelationshipType::Hierarchy;
    assert!(has_edge(&graph, root, company.id, &hierarchy));
    assert!(has_edge(&graph, company.id, division.id, &hierarchy));
    assert!(has_edge(&graph, division.id, department.id, &hierarchy));
    assert!(has_edge(&graph, department.id, team.id, &hierarchy));
}

#[test]
fn conceptual_space_holds_dimensions_and_regions() {
    let graph = create_conceptual_space_viz();
    assert_eq!(graph.nodes().len(), 4);
    assert_eq!(graph.edges().len(), 3);
    assert_eq!(graph.metadata().name, "ConceptualSpaceVisualization");
    let root = graph.composition_root();
    let space = node(&graph, "space");
    let dims = node(&graph, "quality_dims");
    let concepts = node(&graph, "concepts");
    assert_eq!(space.node_type, BaseNodeType::Custom("Space".to_string()));
    assert_eq!(dims.node_type, BaseNodeType::Custom("Dimension".to_string()));
    assert_eq!(concepts.node_type, BaseNodeType::Custom("Region".to_string()));
    assert_eq!(
        concepts.data,
        object(vec![
            ("type", JsonValue::from("Concept Regions")),
            ("description", JsonValue::from("Convex regions representing natural categories")),
        ])
    );
    let contains = BaseRelationshipType::Contains;
    assert!(has_edge(&graph, root, space.id, &contains));
    assert!(has_edge(&graph, space.id, dims.id, &contains));
    assert!(has_edge(&graph, space.id, concepts.id, &contains));
}

#[test]
fn steps_are_taken_in_order() {
    let steps = vec![
        GraphStep::Link {
            source_label: "root".to_string(),
            target_label: "a".to_string(),
            relationship: BaseRelationshipType::Contains,
        },
        GraphStep::Node {
            node_type: BaseNodeType::Value,
            label: "a".to_string(),
            data: JsonValue::from(1),
        },
        GraphStep::Link {
            source_label: "root".to_string(),
            target_label: "a".to_string(),
            relationship: BaseRelationshipType::References,
        },
    ];
    let graph = GraphComposition::aggregate("Order", "o-1").with_steps(steps);
    // the first link comes before its target exists and adds nothing
    assert_eq!(graph.nodes().len(), 2);
    assert_eq!(graph.edges().len(), 1);
    let a = node(&graph, "a");
    assert_eq!(a.data, JsonValue::from(1));
    assert!(has_edge(&graph, graph.composition_root(), a.id, &BaseRelationshipType::References));

    let same = GraphComposition::composite("G").with_steps(Vec::new());
    assert_eq!(same.nodes().len(), 1);
    assert_eq!(same.edges().len(), 0);

    let one = GraphComposition::composite("G").with_step(GraphStep::Node {
        node_type: BaseNodeType::Event,
        label: "e".to_string(),
        data: JsonValue::Null,
    });
    assert_eq!(one.nodes().len(), 2);
    assert_eq!(node(&one, "e").node_type, BaseNodeType::Event);
}

#[test]
fn plans_become_json_objects() {
    assert_eq!(member_value(&MemberValue::Text("t".to_string())), JsonValue::from("t"));
    assert_eq!(member_value(&MemberValue::Number(7)), JsonValue::from(7));
    assert_eq!(member_value(&MemberValue::Number(u64::MAX)), JsonValue::from(u64::MAX));
    assert_eq!(
        member_value(&MemberValue::Texts(vec!["a".to_string(), "b".to_string()])),
        texts(vec!["a", "b"])
    );
    assert_eq!(member_value(&MemberValue::Texts(Vec::new())), texts(vec![]));
    assert_eq!(object_value(&Vec::new()), object(vec![]));
    let members = vec![
        ("k".to_string(), MemberValue::Number(1)),
        ("l".to_string(), MemberValue::Text("x".to_string())),
        ("k".to_string(), MemberValue::Number(2)),
    ];
    assert_eq!(
        object_value(&members),
        object(vec![("k", JsonValue::from(2)), ("l", JsonValue::from("x"))])
    );

    let graph = GraphComposition::from_plan(
        "P",
        vec![
            PlannedStep::Node {
                node_type: BaseNodeType::Service,
                label: "s".to_string(),
                members: vec![("port".to_string(), MemberValue::Number(80))],
            },
            PlannedStep::Link {
                source_label: "s".to_string(),
                target_label: "root".to_string(),
                relationship: BaseRelationshipType::DependsOn,
            },
        ],
    );
    assert_eq!(graph.metadata().name, "P");
    assert_eq!(graph.nodes().len(), 2);
    let s = node(&graph, "s");
    assert_eq!(s.node_type, BaseNodeType::Service);
    assert_eq!(s.data, object(vec![("port", JsonValue::from(80))]));
    assert!(has_edge(&graph, s.id, graph.composition_root(), &BaseRelationshipType::DependsOn));
}

struct Named(&'static str);

impl Composable for Named {
    fn to_graph(&self) -> GraphComposition {
        GraphComposition::entity("Named", self.0)
    }
}

#[test]
fn knowledge_graph_of_nothing_is_a_composite() {
    let none: Vec<Named> = Vec::new();
    let graph = compose_knowledge_graph(&none);
    assert_eq!(graph.nodes().len(), 1);
    assert_eq!(graph.edges().len(), 0);
    assert_eq!(
        graph.composition_type(),
        &CompositionType::Composite { structure_type: "KnowledgeGraph".to_string() }
    );
    assert_eq!(graph.metadata().name, "KnowledgeGraph");
    let graph = knowledge_graph_of(Vec::new());
    assert_eq!(graph.metadata().name, "KnowledgeGraph");
}

#[test]
fn knowledge_graph_of_one_is_that_graph() {
    let graph = compose_knowledge_graph(&[Named("a")]);
    assert_eq!(graph.nodes().len(), 1);
    assert_eq!(graph.metadata().name, "Named");
    let only = GraphComposition::atomic("A", JsonValue::from(1));
    let id = only.id();
    let graph = knowledge_graph_of(vec![only]);
    assert_eq!(graph.id(), id);
    assert_eq!(graph.metadata().name, "A");
}

#[test]
fn knowledge_graph_nests_parallel_compositions() {
    let graph = compose_knowledge_graph(&[Named("a"), Named("b"), Named("c")]);
    // three roots of the parts and two roots of parallel compositions
    assert_eq!(graph.nodes().len(), 5);
    assert_eq!(graph.edges().len(), 4);
    assert_eq!(graph.metadata().name, "Parallel");
    for edge in graph.edges().values() {
        assert_eq!(edge.relationship.relationship_type, BaseRelationshipType::Parallel);
    }
    assert_eq!(graph.find_roots(), vec![graph.composition_root()]);
    assert_eq!(graph.find_leaves().len(), 3);
    assert_eq!(graph.get_connected_nodes(graph.composition_root()).len(), 2);
}
