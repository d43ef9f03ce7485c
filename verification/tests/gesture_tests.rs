use graph_canvas::curve::breaker_path_length;
use graph_canvas::curve::collect_connection_curves;
use graph_canvas::curve::connection_hits;
use graph_canvas::curve::polyline_hit;
use graph_canvas::curve::sample_curve;
use graph_canvas::curve::ConnectionCurve;
use graph_canvas::curve::ConnectionKey;
use graph_canvas::geom::Recti;
use graph_canvas::geom::Vec2i;
use graph_canvas::gesture::apply_connection;
use graph_canvas::gesture::breaker_append;
use graph_canvas::gesture::collect_ports;
use graph_canvas::gesture::find_port_near;
use graph_canvas::gesture::finish_cut;
use graph_canvas::gesture::node_under_pointer;
use graph_canvas::gesture::FrameInput;
use graph_canvas::gesture::GestureState;
use graph_canvas::gesture::GraphUi;
use graph_canvas::gesture::PortKind;
use graph_canvas::gesture::PortRef;
use graph_canvas::layout::NodeLayout;
use graph_canvas::layout::NodeTextWidths;
use graph_canvas::model::Connection;
use graph_canvas::model::Graph;
use graph_canvas::model::Input;
use graph_canvas::model::Node;
use graph_canvas::model::Output;

fn v(x: i64, y: i64) -> Vec2i {
    Vec2i { x, y }
}

fn two_node_graph() -> Graph {
    let a = Node {
        id: 1,
        name: "source".to_string(),
        pos: v(0, 0),
        inputs: Vec::new(),
        outputs: vec![Output { name: "v".to_string() }],
        cache_output: false,
        has_cached_output: false,
        terminal: false,
    };
    let b = Node {
        id: 2,
        name: "sink".to_string(),
        pos: v(300_000, 0),
        inputs: vec![Input {
            name: "in".to_string(),
            connection: Some(Connection { node_id: 1, output_index: 0 }),
        }],
        outputs: Vec::new(),
        cache_output: false,
        has_cached_output: false,
        terminal: true,
    };
    Graph { id: 9, nodes: vec![a, b], pan: v(0, 0), zoom: 1000, selected_node_id: None }
}

fn measures_for(graph: &Graph) -> Vec<NodeTextWidths> {
    graph
        .nodes
        .iter()
        .map(|node| NodeTextWidths {
            header: 50_000,
            inputs: node.inputs.iter().map(|_| 20_000).collect(),
            outputs: node.outputs.iter().map(|_| 20_000).collect(),
            cache_label: 30_000,
        })
        .collect()
}

#[test]
fn ports_are_collected_and_found() {
    let graph = Graph::test_graph();
    let layout = NodeLayout::default();
    let widths: Vec<i64> = vec![180_000; 5];
    let ports = collect_ports(&graph, v(0, 0), &layout, 1000, &widths);
    // 5 inputs and 4 outputs over the sample graph
    assert_eq!(ports.len(), 9);
    // value_a's output sits on its right edge at the first row center
    let hit = find_port_near(&ports, v(262_000, 180_000), 10_000).unwrap();
    assert_eq!(hit.port.node_id, 1);
    assert_eq!(hit.port.kind, PortKind::Output);
    assert_eq!(hit.center, v(260_000, 179_000));
    // far away from every port
    assert!(find_port_near(&ports, v(10_000, 10_000), 10_000).is_none());
}

#[test]
fn node_hit_testing_prefers_topmost() {
    let graph = Graph::test_graph();
    let layout = NodeLayout::default();
    let widths: Vec<i64> = vec![180_000; 5];
    assert_eq!(
        node_under_pointer(&graph, v(0, 0), &layout, 1000, &widths, v(100_000, 130_000)),
        Some(0)
    );
    assert_eq!(
        node_under_pointer(&graph, v(0, 0), &layout, 1000, &widths, v(0, 0)),
        None
    );
}

#[test]
fn connection_assignment_rejects_same_kind_and_bad_indices() {
    let mut graph = Graph::test_graph();
    let before = graph.nodes[4].inputs[0].connection;

    // two outputs: rejected, nothing changes
    let out_a = PortRef { node_id: 1, index: 0, kind: PortKind::Output };
    let out_b = PortRef { node_id: 2, index: 0, kind: PortKind::Output };
    assert!(!apply_connection(&mut graph, out_a, out_b));
    assert_eq!(graph.nodes[4].inputs[0].connection, before);

    // out-of-range output index: rejected
    let bad_out = PortRef { node_id: 1, index: 5, kind: PortKind::Output };
    let input = PortRef { node_id: 5, index: 0, kind: PortKind::Input };
    assert!(!apply_connection(&mut graph, bad_out, input));
    assert_eq!(graph.nodes[4].inputs[0].connection, before);

    // out-of-range input index: rejected
    let out = PortRef { node_id: 1, index: 0, kind: PortKind::Output };
    let bad_in = PortRef { node_id: 5, index: 3, kind: PortKind::Input };
    assert!(!apply_connection(&mut graph, out, bad_in));
    assert_eq!(graph.nodes[4].inputs[0].connection, before);

    // missing node: rejected
    let ghost_out = PortRef { node_id: 77, index: 0, kind: PortKind::Output };
    assert!(!apply_connection(&mut graph, ghost_out, input));

    // a valid opposite-kind pair (input given first) commits
    assert!(apply_connection(&mut graph, input, out));
    assert_eq!(
        graph.nodes[4].inputs[0].connection,
        Some(Connection { node_id: 1, output_index: 0 })
    );
    assert!(graph.validate().is_ok());
}

#[test]
fn breaker_respects_movement_threshold_and_budget() {
    let mut points = vec![v(0, 0)];
    // under two pixels: ignored
    breaker_append(&mut points, v(1500, 0));
    assert_eq!(points.len(), 1);
    // a real segment is appended
    breaker_append(&mut points, v(600_000, 0));
    assert_eq!(points.len(), 2);
    assert_eq!(breaker_path_length(&points), 600_000);
    // overruns the budget: clamped to the remaining 300_000
    breaker_append(&mut points, v(1_500_000, 0));
    assert_eq!(points.len(), 3);
    assert_eq!(points[2], v(900_000, 0));
    assert_eq!(breaker_path_length(&points), 900_000);
    // budget exhausted: nothing more is appended
    breaker_append(&mut points, v(0, 500_000));
    assert_eq!(points.len(), 3);
}

#[test]
fn curves_sample_and_hit() {
    let curve = ConnectionCurve {
        key: ConnectionKey { target_node_id: 2, input_index: 0 },
        start: v(0, 0),
        end: v(100_000, 0),
        control_offset: 50_000,
    };
    let samples = sample_curve(&curve);
    assert_eq!(samples.len(), 25);
    assert_eq!(samples[0], v(0, 0));
    assert_eq!(samples[24], v(100_000, 0));
    let crossing = vec![v(50_000, -10_000), v(50_000, 10_000)];
    assert!(polyline_hit(&crossing, &samples));
    let parallel = vec![v(0, 20_000), v(100_000, 20_000)];
    assert!(!polyline_hit(&parallel, &samples));

    let hits = connection_hits(&vec![curve], &crossing);
    assert_eq!(hits.len(), 1);
    assert_eq!(hits[0], ConnectionKey { target_node_id: 2, input_index: 0 });
    assert!(connection_hits(&vec![curve], &parallel).is_empty());
}

/// A path crossing a connection's rendered curve once removes exactly
/// that connection; one that crosses nothing leaves the graph intact.
#[test]
fn cut_severs_exactly_crossed_connections() {
    let layout = NodeLayout::default();
    let widths: Vec<i64> = vec![180_000, 180_000];

    // the curve runs from (180_000, 59_000) to (300_000, 59_000)
    let mut graph = two_node_graph();
    let miss = vec![v(0, 200_000), v(100_000, 200_000)];
    finish_cut(&mut graph, v(0, 0), &layout, 1000, &widths, &miss);
    assert!(graph.nodes[1].inputs[0].connection.is_some());

    let cross = vec![v(240_000, 0), v(240_000, 100_000)];
    finish_cut(&mut graph, v(0, 0), &layout, 1000, &widths, &cross);
    assert!(graph.nodes[1].inputs[0].connection.is_none());
    assert!(graph.validate().is_ok());
}

#[test]
fn curve_collection_matches_connections() {
    let graph = two_node_graph();
    let layout = NodeLayout::default();
    let widths: Vec<i64> = vec![180_000, 180_000];
    let curves = collect_connection_curves(&graph, v(0, 0), &layout, 1000, &widths);
    assert_eq!(curves.len(), 1);
    assert_eq!(curves[0].key, ConnectionKey { target_node_id: 2, input_index: 0 });
    assert_eq!(curves[0].start, v(180_000, 59_000));
    assert_eq!(curves[0].end, v(300_000, 59_000));
    assert_eq!(curves[0].control_offset, 60_000);
}

fn idle_input(graph: &Graph) -> FrameInput {
    FrameInput {
        viewport: Recti { min: v(0, 0), max: v(800_000, 600_000) },
        pointer: None,
        cursor: None,
        primary_pressed: false,
        primary_down: false,
        primary_released: false,
        middle_down: false,
        pointer_delta: v(0, 0),
        scroll_delta: v(0, 0),
        zoom_delta: 1000,
        text_widths: measures_for(graph),
    }
}

#[test]
fn render_idle_tick_changes_nothing() {
    let mut ui = GraphUi::default();
    let mut graph = Graph::test_graph();
    let input = idle_input(&graph);
    let r = ui.render(&input, &mut graph);
    assert!(r.selection_request.is_none());
    assert!(r.remove_request.is_none());
    assert_eq!(graph.nodes.len(), 5);
    assert!(graph.validate().is_ok());
    assert!(matches!(ui.state, GestureState::Idle));
}

#[test]
fn render_background_press_starts_cut_and_clears_selection() {
    let mut ui = GraphUi::default();
    let mut graph = Graph::test_graph();
    graph.select_node(1);
    let mut input = idle_input(&graph);
    input.pointer = Some(v(10_000, 10_000));
    input.primary_pressed = true;
    input.primary_down = true;
    let r = ui.render(&input, &mut graph);
    assert!(r.selection_request.is_none());
    assert!(graph.selected_node_id.is_none());
    assert!(matches!(ui.state, GestureState::ConnectionCutting { .. }));

    // release with an empty path: nothing is removed
    let mut release = idle_input(&graph);
    release.pointer = Some(v(10_000, 10_000));
    release.primary_released = true;
    ui.render(&release, &mut graph);
    assert!(matches!(ui.state, GestureState::Idle));
    assert_eq!(graph.nodes.len(), 5);
    assert!(graph.nodes[2].inputs[0].connection.is_some());
}

#[test]
fn render_body_press_selects_node() {
    let mut ui = GraphUi::default();
    let mut graph = Graph::test_graph();
    let mut input = idle_input(&graph);
    // inside value_a's body, below its header and cache rows
    input.pointer = Some(v(150_000, 190_000));
    input.primary_pressed = true;
    input.primary_down = true;
    let r = ui.render(&input, &mut graph);
    assert_eq!(r.selection_request, Some(1));
    assert_eq!(graph.selected_node_id, Some(1));
}

/// Dragging a node header by screen pixels moves its stored graph-space
/// position by the delta divided by the zoom.
#[test]
fn render_header_drag_moves_node() {
    let mut ui = GraphUi::default();
    let mut graph = Graph::test_graph();
    graph.zoom = 2000;
    // at zoom 2.0 value_a's rectangle starts at (160_000, 240_000)
    let mut press = idle_input(&graph);
    press.pointer = Some(v(180_000, 250_000));
    press.primary_pressed = true;
    press.primary_down = true;
    ui.render(&press, &mut graph);
    assert!(matches!(ui.state, GestureState::NodeDragging { .. }));

    let mut drag = idle_input(&graph);
    drag.pointer = Some(v(190_000, 254_000));
    drag.primary_down = true;
    drag.pointer_delta = v(10_000, 4_000);
    let r = ui.render(&drag, &mut graph);
    assert_eq!(r.selection_request, Some(1));
    // the screen delta lands as delta / zoom in graph space
    assert_eq!(graph.nodes[0].pos, v(80_000 + 5_000, 120_000 + 2_000));

    let mut release = idle_input(&graph);
    release.primary_released = true;
    let r = ui.render(&release, &mut graph);
    assert_eq!(r.selection_request, Some(1));
    assert_eq!(graph.selected_node_id, Some(1));
    assert!(matches!(ui.state, GestureState::Idle));
}

#[test]
fn render_plain_scroll_pans() {
    let mut ui = GraphUi::default();
    let mut graph = Graph::test_graph();
    let mut input = idle_input(&graph);
    input.cursor = Some(v(400_000, 300_000));
    input.scroll_delta = v(-3_000, 7_000);
    ui.render(&input, &mut graph);
    assert_eq!(graph.pan, v(-3_000, 7_000));
    assert_eq!(graph.zoom, 1000);
}

#[test]
fn render_close_control_removes_node() {
    let mut ui = GraphUi::default();
    let mut graph = Graph::test_graph();
    // value_a's rectangle is (80_000..260_000, 120_000..196_000); the
    // close button is a 14_000-unit square at the header's right edge
    let mut press = idle_input(&graph);
    press.pointer = Some(v(248_000, 131_000));
    press.primary_pressed = true;
    press.primary_down = true;
    let r = ui.render(&press, &mut graph);
    assert_eq!(r.remove_request, Some(1));
    assert_eq!(graph.nodes.len(), 4);
    assert!(graph.validate().is_ok());
    // the sum node lost its reference to the removed source
    assert!(graph.nodes[1].inputs[0].connection.is_none());
}

/// Pressing on a port, dragging, and releasing on a port of the opposite
/// kind commits the connection; releasing on empty space discards it.
#[test]
fn render_port_drag_commits_connection() {
    let mut ui = GraphUi::default();
    let mut graph = Graph::test_graph();
    let before = graph.nodes[2].inputs[0].connection;
    assert_eq!(before, Some(Connection { node_id: 1, output_index: 0 }));

    // press on value_b's output port center
    let mut press = idle_input(&graph);
    press.pointer = Some(v(260_000, 319_000));
    press.primary_pressed = true;
    press.primary_down = true;
    ui.render(&press, &mut graph);
    assert!(matches!(ui.state, GestureState::ConnectionDragging { .. }));

    // drag toward the sum node's first input
    let mut drag = idle_input(&graph);
    drag.pointer = Some(v(300_000, 230_000));
    drag.primary_down = true;
    ui.render(&drag, &mut graph);

    // release on the input port center: the connection is overwritten
    let mut release = idle_input(&graph);
    release.pointer = Some(v(320_000, 239_000));
    release.primary_released = true;
    ui.render(&release, &mut graph);
    assert!(matches!(ui.state, GestureState::Idle));
    assert_eq!(
        graph.nodes[2].inputs[0].connection,
        Some(Connection { node_id: 2, output_index: 0 })
    );
    assert!(graph.validate().is_ok());

    // a second drag released over empty space changes nothing
    let mut press = idle_input(&graph);
    press.pointer = Some(v(260_000, 319_000));
    press.primary_pressed = true;
    press.primary_down = true;
    ui.render(&press, &mut graph);
    let mut release = idle_input(&graph);
    release.pointer = Some(v(10_000, 10_000));
    release.primary_released = true;
    ui.render(&release, &mut graph);
    assert!(matches!(ui.state, GestureState::Idle));
    assert_eq!(
        graph.nodes[2].inputs[0].connection,
        Some(Connection { node_id: 2, output_index: 0 })
    );
}

#[test]
fn render_zoom_tick_clamps_and_anchors() {
    let mut ui = GraphUi::default();
    let mut graph = Graph::test_graph();
    let mut input = idle_input(&graph);
    input.cursor = Some(v(400_000, 300_000));
    input.zoom_delta = 3000;
    ui.render(&input, &mut graph);
    assert_eq!(graph.zoom, 3000);
    assert!(graph.validate().is_ok());
}
