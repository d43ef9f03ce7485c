use graph_canvas::camera::fit_all_nodes;
use graph_canvas::camera::reset_view;
use graph_canvas::camera::view_selected_node;
use graph_canvas::geom::Recti;
use graph_canvas::geom::Vec2i;
use graph_canvas::layout::NodeLayout;
use graph_canvas::model::Graph;
use graph_canvas::model::Node;
use graph_canvas::viewport::apply_pan;
use graph_canvas::viewport::apply_zoom_to_cursor;
use graph_canvas::viewport::drag_delta_to_graph;
use graph_canvas::viewport::graph_to_screen;
use graph_canvas::viewport::screen_to_graph;

fn v(x: i64, y: i64) -> Vec2i {
    Vec2i { x, y }
}

/// Screen to graph and back round-trips within grid rounding: never
/// high, at most four thousandths of a pixel low.
#[test]
fn screen_graph_screen_round_trip() {
    let origin = v(100_000, 50_000);
    let pan = v(-7_777, 13_131);
    for &zoom in &[200i64, 333, 1000, 2500, 4000] {
        for &sx in &[-400_000i64, -1, 0, 1, 123_457, 400_000] {
            let s = v(sx, -sx / 2);
            let g = screen_to_graph(s, origin, pan, zoom);
            let s2 = graph_to_screen(g, origin, pan, zoom);
            assert!(s.x - 4 <= s2.x && s2.x <= s.x, "zoom {} sx {}", zoom, sx);
            assert!(s.y - 4 <= s2.y && s2.y <= s.y);
        }
    }
}

/// Zoom-to-cursor anchoring: the graph point under the cursor stays put
/// within five thousandths of a pixel.
#[test]
fn zoom_anchors_at_cursor() {
    let mut graph = Graph::test_graph();
    graph.pan = v(20_000, -10_000);
    let cursor = v(250_000, 180_000);
    let origin = v(0, 0);
    let before = screen_to_graph(
        cursor,
        origin,
        graph.pan,
        graph.zoom,
    );
    apply_zoom_to_cursor(&mut graph, cursor, origin, 2000);
    assert_eq!(graph.zoom, 2000);
    let after = screen_to_graph(cursor, origin, graph.pan, graph.zoom);
    assert!(before.x - 5 <= after.x && after.x <= before.x);
    assert!(before.y - 5 <= after.y && after.y <= before.y);
}

#[test]
fn zoom_clamps_to_range() {
    let mut graph = Graph::test_graph();
    apply_zoom_to_cursor(&mut graph, v(0, 0), v(0, 0), 1_000_000);
    assert_eq!(graph.zoom, 4000);
    apply_zoom_to_cursor(&mut graph, v(0, 0), v(0, 0), 1);
    assert_eq!(graph.zoom, 200);
    // a delta of exactly one leaves everything alone
    let pan = graph.pan;
    apply_zoom_to_cursor(&mut graph, v(0, 0), v(0, 0), 1000);
    assert_eq!(graph.zoom, 200);
    assert_eq!(graph.pan, pan);
}

#[test]
fn pan_moves_by_delta() {
    let mut graph = Graph::test_graph();
    apply_pan(&mut graph, v(5_000, -2_000));
    assert_eq!(graph.pan, v(5_000, -2_000));
    apply_pan(&mut graph, v(-5_000, 2_000));
    assert_eq!(graph.pan, v(0, 0));
}

/// Dragging at zoom `z` moves the stored position by the screen delta
/// divided by the zoom, exactly on the grid.
#[test]
fn drag_delta_scales_by_inverse_zoom() {
    assert_eq!(drag_delta_to_graph(v(1000, 2000), 500), v(2000, 4000));
    assert_eq!(drag_delta_to_graph(v(1000, 2000), 2000), v(500, 1000));
    assert_eq!(drag_delta_to_graph(v(-1000, 0), 4000), v(-250, 0));
}

#[test]
fn reset_view_restores_defaults() {
    let mut graph = Graph::test_graph();
    graph.zoom = 3000;
    graph.pan = v(123, 456);
    reset_view(&mut graph);
    assert_eq!(graph.zoom, 1000);
    assert_eq!(graph.pan, v(0, 0));
}

/// Fit-all on an empty graph resets the camera.
#[test]
fn fit_all_empty_graph_resets() {
    let mut graph = Graph::default();
    graph.zoom = 2500;
    graph.pan = v(9_000, 9_000);
    let layout = NodeLayout::default();
    let viewport = Recti { min: v(0, 0), max: v(800_000, 600_000) };
    fit_all_nodes(&mut graph, viewport, &layout, &Vec::new());
    assert_eq!(graph.zoom, 1000);
    assert_eq!(graph.pan, v(0, 0));
}

/// Fit-all on a single node in a small viewport derives a zoom at most
/// one and centers the node's bounds on the viewport center.
#[test]
fn fit_all_single_node_centers() {
    let mut graph = Graph::default();
    let mut node = Node::default();
    node.id = 7;
    node.pos = v(10_000, 20_000);
    graph.nodes.push(node);
    let layout = NodeLayout::default();
    let viewport = Recti { min: v(0, 0), max: v(100_000, 80_000) };
    fit_all_nodes(&mut graph, viewport, &layout, &vec![180_000]);
    // bounds: x 10_000..190_000, y 20_000..96_000 (height 76_000)
    assert_eq!(graph.zoom, 288);
    assert!(graph.zoom <= 1000);
    // the bounds center lands exactly on the viewport center
    let center = graph_to_screen(v(100_000, 58_000), viewport.min, graph.pan, graph.zoom);
    assert_eq!(center, v(50_000, 40_000));
}

#[test]
fn view_selected_centers_at_unit_zoom() {
    let mut graph = Graph::test_graph();
    let id = graph.nodes[0].id;
    graph.select_node(id);
    graph.zoom = 3000;
    let layout = NodeLayout::default();
    let viewport = Recti { min: v(0, 0), max: v(800_000, 600_000) };
    let widths: Vec<i64> = vec![180_000, 180_000, 180_000, 180_000, 180_000];
    view_selected_node(&mut graph, viewport, &layout, &widths);
    assert_eq!(graph.zoom, 1000);
    // node 0 at (80_000, 120_000), size 180_000 x 76_000 (one row)
    let center = graph_to_screen(v(170_000, 158_000), viewport.min, graph.pan, graph.zoom);
    assert_eq!(center, v(400_000, 300_000));
}
