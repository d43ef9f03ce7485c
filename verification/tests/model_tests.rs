use graph_canvas::format::GraphFormat;
use graph_canvas::geom::Vec2i;
use graph_canvas::geom::COORD_LIMIT;
use graph_canvas::geom::PAN_LIMIT;
use graph_canvas::model::Connection;
use graph_canvas::model::Graph;
use graph_canvas::model::GraphError;
use graph_canvas::model::Node;

#[test]
fn test_graph() {
    let graph = Graph::test_graph();
    assert!(graph.validate().is_ok());
}

#[test]
fn sample_graph_topology() {
    let graph = Graph::test_graph();
    assert_eq!(graph.nodes.len(), 5);
    assert_eq!(graph.zoom, 1000);
    assert_eq!(graph.pan, Vec2i { x: 0, y: 0 });
    assert!(graph.selected_node_id.is_none());
    // two sources, a sum of both, a divide of sum and a source, a terminal sink
    assert_eq!(graph.nodes[2].inputs.len(), 2);
    assert_eq!(graph.nodes[3].inputs.len(), 2);
    assert_eq!(graph.nodes[4].inputs.len(), 1);
    assert!(graph.nodes[4].terminal);
    let c = graph.nodes[4].inputs[0].connection.unwrap();
    assert_eq!(c.node_id, graph.nodes[3].id);
    assert_eq!(c.output_index, 0);
}

#[test]
fn validate_rejects_out_of_range_output_index() {
    let mut graph = Graph::test_graph();
    assert!(graph.validate().is_ok());
    graph.nodes[2].inputs[0].connection = Some(Connection { node_id: 1, output_index: 5 });
    assert_eq!(graph.validate(), Err(GraphError::ConnectionIndexOutOfRange));
}

#[test]
fn validate_rejects_missing_connection_node() {
    let mut graph = Graph::test_graph();
    graph.nodes[2].inputs[0].connection = Some(Connection { node_id: 99, output_index: 0 });
    assert_eq!(graph.validate(), Err(GraphError::MissingConnectionNode));
}

#[test]
fn validate_rejects_bad_camera_and_ids() {
    let mut graph = Graph::test_graph();
    graph.zoom = 0;
    assert_eq!(graph.validate(), Err(GraphError::NonPositiveZoom));

    let mut graph = Graph::test_graph();
    graph.pan = Vec2i { x: PAN_LIMIT + 1, y: 0 };
    assert_eq!(graph.validate(), Err(GraphError::PanOutOfBounds));

    let mut graph = Graph::test_graph();
    graph.nodes[0].pos = Vec2i { x: COORD_LIMIT + 1, y: 0 };
    assert_eq!(graph.validate(), Err(GraphError::NodePositionOutOfBounds));

    let mut graph = Graph::test_graph();
    graph.nodes[1].id = graph.nodes[0].id;
    assert_eq!(graph.validate(), Err(GraphError::DuplicateNodeId));

    let mut graph = Graph::test_graph();
    graph.selected_node_id = Some(42);
    assert_eq!(graph.validate(), Err(GraphError::MissingSelectedNode));
}

#[test]
fn select_node_sets_selection() {
    let mut graph = Graph::test_graph();
    let id = graph.nodes[2].id;
    graph.select_node(id);
    assert_eq!(graph.selected_node_id, Some(id));
    assert!(graph.validate().is_ok());
}

#[test]
fn remove_node_scrubs_references() {
    let mut graph = Graph::test_graph();
    let removed = graph.nodes[1].id;
    graph.select_node(removed);
    graph.remove_node(removed);
    assert_eq!(graph.nodes.len(), 4);
    assert_eq!(graph.selected_node_id, None);
    for node in &graph.nodes {
        assert_ne!(node.id, removed);
        for input in &node.inputs {
            if let Some(c) = &input.connection {
                assert_ne!(c.node_id, removed);
            }
        }
    }
    // the untouched connections survive
    let c = graph.nodes[1].inputs[0].connection.unwrap();
    assert_eq!(c.node_id, 1);
    assert!(graph.validate().is_ok());
}

#[test]
fn defaults_are_valid() {
    let graph = Graph::default();
    assert!(graph.validate().is_ok());
    assert_eq!(graph.nodes.len(), 0);
    assert_eq!(graph.zoom, 1000);
    assert_ne!(graph.id, 0);

    let node = Node::default();
    assert_ne!(node.id, 0);
    // a fresh identifier carries the version-4 and variant bits
    assert_eq!(
        node.id & 0xF000_C000_0000_0000_0000,
        0x4000_8000_0000_0000_0000
    );
    assert!(node.inputs.is_empty());
    assert!(node.outputs.is_empty());
    assert!(!node.cache_output && !node.has_cached_output && !node.terminal);
}

#[test]
fn format_from_extension() {
    assert_eq!(GraphFormat::from_extension("json"), Ok(GraphFormat::Json));
    assert_eq!(GraphFormat::from_extension(" JSON "), Ok(GraphFormat::Json));
    assert_eq!(GraphFormat::from_extension("yaml"), Ok(GraphFormat::Yaml));
    assert_eq!(GraphFormat::from_extension("YmL"), Ok(GraphFormat::Yaml));
    assert_eq!(GraphFormat::from_extension("Toml"), Ok(GraphFormat::Toml));
    assert_eq!(
        GraphFormat::from_extension(""),
        Err(GraphError::EmptyExtension)
    );
    assert_eq!(
        GraphFormat::from_extension("  \t"),
        Err(GraphError::EmptyExtension)
    );
    assert_eq!(
        GraphFormat::from_extension("xml"),
        Err(GraphError::UnsupportedExtension)
    );
}

#[test]
fn format_from_path() {
    assert_eq!(
        GraphFormat::from_path("a/b/graph.json"),
        Ok(GraphFormat::Json)
    );
    assert_eq!(
        GraphFormat::from_path("graph.tar.toml"),
        Ok(GraphFormat::Toml)
    );
    assert_eq!(GraphFormat::from_path("x.YAML"), Ok(GraphFormat::Yaml));
    assert_eq!(
        GraphFormat::from_path("noext"),
        Err(GraphError::MissingExtension)
    );
    assert_eq!(
        GraphFormat::from_path("dir/.hidden"),
        Err(GraphError::MissingExtension)
    );
    assert_eq!(
        GraphFormat::from_path("dir.d/file"),
        Err(GraphError::MissingExtension)
    );
    assert_eq!(
        GraphFormat::from_path("graph.xml"),
        Err(GraphError::UnsupportedExtension)
    );
}
