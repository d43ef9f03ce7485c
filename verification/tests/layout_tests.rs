use graph_canvas::geom::Vec2i;
use graph_canvas::layout::bezier_control_offset;
use graph_canvas::layout::compute_node_widths;
use graph_canvas::layout::node_input_pos;
use graph_canvas::layout::node_output_pos;
use graph_canvas::layout::node_rect_for_graph;
use graph_canvas::layout::node_size;
use graph_canvas::layout::port_radius_for_scale;
use graph_canvas::layout::NodeLayout;
use graph_canvas::layout::NodeTextWidths;
use graph_canvas::model::Graph;
use graph_canvas::style::GraphStyle;
use graph_canvas::style::Rgba;
use graph_canvas::style::StrokeStyle;

fn v(x: i64, y: i64) -> Vec2i {
    Vec2i { x, y }
}

fn style_at(scale: i64) -> GraphStyle {
    GraphStyle::new(
        scale,
        Rgba { r: 30, g: 30, b: 30, a: 255 },
        StrokeStyle { width: 1000, color: Rgba { r: 80, g: 80, b: 80, a: 255 } },
        Rgba { r: 100, g: 160, b: 255, a: 255 },
    )
}

#[test]
fn layout_scales_linearly_with_zoom() {
    let base = NodeLayout::default();
    assert_eq!(base.node_width, 180_000);
    assert_eq!(base.header_height, 22_000);
    let doubled = base.scaled(2000);
    assert_eq!(doubled.node_width, 360_000);
    assert_eq!(doubled.header_height, 44_000);
    assert_eq!(doubled.cache_height, 40_000);
    assert_eq!(doubled.row_height, 36_000);
    assert_eq!(doubled.padding, 16_000);
    assert_eq!(doubled.corner_radius, 12_000);
}

#[test]
fn port_radius_clamps() {
    assert_eq!(port_radius_for_scale(1000), 5_500);
    assert_eq!(port_radius_for_scale(200), 3_000);
    assert_eq!(port_radius_for_scale(4000), 7_500);
}

#[test]
fn node_geometry_formulas() {
    let graph = Graph::test_graph();
    let layout = NodeLayout::default();
    // the sum node has two input rows
    let size = node_size(&graph.nodes[2], &layout, 180_000);
    assert_eq!(size, v(180_000, 22_000 + 20_000 + 8_000 + 2 * 18_000 + 8_000));
    // value_a: one output row
    let rect = node_rect_for_graph(v(0, 0), &graph.nodes[0], 1000, &layout, 180_000);
    assert_eq!(rect.min, v(80_000, 120_000));
    assert_eq!(rect.max, v(260_000, 196_000));
    // port centers: inputs on the left edge, outputs on the right
    let sum_in0 = node_input_pos(v(0, 0), &graph.nodes[2], 0, &layout, 1000);
    assert_eq!(sum_in0, v(320_000, 180_000 + 59_000));
    let a_out = node_output_pos(v(0, 0), &graph.nodes[0], 0, &layout, 1000, 180_000);
    assert_eq!(a_out, v(260_000, 120_000 + 59_000));
    // zooming scales the position offsets
    let rect2 = node_rect_for_graph(v(0, 0), &graph.nodes[0], 2000, &layout, 180_000);
    assert_eq!(rect2.min, v(160_000, 240_000));
}

#[test]
fn control_offset_is_half_span_with_floor() {
    assert_eq!(bezier_control_offset(v(0, 0), v(100_000, 0), 1000), 50_000);
    assert_eq!(bezier_control_offset(v(0, 0), v(10_000, 0), 1000), 40_000);
    assert_eq!(bezier_control_offset(v(10_000, 0), v(0, 0), 1000), 40_000);
    assert_eq!(bezier_control_offset(v(0, 0), v(10_000, 0), 200), 8_000);
}

#[test]
fn node_width_takes_the_widest_row() {
    let mut graph = Graph::default();
    let mut node = graph_canvas::model::Node::default();
    node.id = 3;
    graph.nodes.push(node);
    let layout = NodeLayout::default();
    let style = style_at(1000);
    // a wide header dominates
    let measures = vec![NodeTextWidths {
        header: 200_000,
        inputs: Vec::new(),
        outputs: Vec::new(),
        cache_label: 30_000,
    }];
    let widths = compute_node_widths(&graph, &layout, &style, &measures);
    assert_eq!(widths, vec![216_000]);
    // narrow text falls back to the configured minimum width
    let measures = vec![NodeTextWidths {
        header: 10_000,
        inputs: Vec::new(),
        outputs: Vec::new(),
        cache_label: 10_000,
    }];
    let widths = compute_node_widths(&graph, &layout, &style, &measures);
    assert_eq!(widths, vec![180_000]);
}

#[test]
fn style_is_well_formed() {
    let style = style_at(1000);
    assert!(style.validate());
    assert_eq!(style.header_text_offset, 4_000);
    assert_eq!(style.status_dot_radius, 4_000);
    assert_eq!(style.status_item_gap, 6_000);
    assert_eq!(style.selected_stroke.width, 2_000);
    let mut bad = style;
    bad.dotted_base_spacing = 0;
    assert!(!bad.validate());
}
