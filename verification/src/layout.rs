//! The layout engine: per-node sizes, port centers and header control
//! regions, all in fixed-point units scaled by the current zoom. Text
//! widths are measured by the host's font machinery and handed in as
//! plain values; everything built from them is computed and proved here.

use vstd::prelude::*;

use crate::geom::floor_div;
use crate::geom::imax;
use crate::geom::imin;
use crate::geom::max_i64;
use crate::geom::min_i64;
use crate::geom::Recti;
use crate::geom::Vec2i;
use crate::geom::MAX_ZOOM;
use crate::geom::MIN_ZOOM;
use crate::geom::ZOOM_ONE;
use crate::model::Graph;
use crate::model::ports_bounded;
use crate::model::Node;
use crate::style::GraphStyle;
use crate::style::CACHE_BUTTON_TEXT_PAD_FACTOR;
use crate::style::CACHE_BUTTON_VERTICAL_PAD_FACTOR;
use crate::style::CACHE_BUTTON_WIDTH_FACTOR;

verus! {

/// Largest measured text width the layout accepts, in fixed-point units.
pub const TEXT_WIDTH_LIMIT: i64 = 10_000_000;

/// Largest computed node width.
pub const NODE_WIDTH_LIMIT: i64 = 300_000_000;

/// Largest computed node extent (width or height).
pub const NODE_EXTENT_LIMIT: i64 = 500_000_000_000;

/// Largest magnitude of a screen point the layout can produce.
pub const SCREEN_LIMIT: i64 = 201_000_000_000_000;

/// Layout constants for one frame, in fixed-point units. The unscaled
/// base is `NodeLayout::default`; `scaled` multiplies it by the zoom.
#[derive(Clone, Copy, PartialEq, Eq, Structural, Debug)]
pub struct NodeLayout {
    pub node_width: i64,
    pub header_height: i64,
    pub cache_height: i64,
    pub row_height: i64,
    pub padding: i64,
    pub corner_radius: i64,
}

impl NodeLayout {
    /// A usable frame layout: minimum width and row height, everything
    /// non-negative and bounded.
    pub open spec fn wf(self) -> bool {
        &&& 200 <= self.node_width <= 40_000_000
        &&& 0 <= self.header_height <= 40_000_000
        &&& 0 <= self.cache_height <= 40_000_000
        &&& 200 <= self.row_height <= 40_000_000
        &&& 0 <= self.padding <= 40_000_000
        &&& 0 <= self.corner_radius <= 40_000_000
    }

    /// An unscaled base layout: wide enough that scaling by any permitted
    /// zoom keeps it usable.
    pub open spec fn base_wf(self) -> bool {
        &&& 1000 <= self.node_width <= 10_000_000
        &&& 0 <= self.header_height <= 10_000_000
        &&& 0 <= self.cache_height <= 10_000_000
        &&& 1000 <= self.row_height <= 10_000_000
        &&& 0 <= self.padding <= 10_000_000
        &&& 0 <= self.corner_radius <= 10_000_000
    }

    /// This layout multiplied by a zoom factor, each field rounding down
    /// to the grid.
    pub fn scaled(&self, zoom: i64) -> (r: NodeLayout)
        requires
            self.base_wf(),
            MIN_ZOOM <= zoom <= MAX_ZOOM,
        ensures
            r.node_width == (self.node_width * zoom) / (ZOOM_ONE as int),
            r.header_height == (self.header_height * zoom) / (ZOOM_ONE as int),
            r.cache_height == (self.cache_height * zoom) / (ZOOM_ONE as int),
            r.row_height == (self.row_height * zoom) / (ZOOM_ONE as int),
            r.padding == (self.padding * zoom) / (ZOOM_ONE as int),
            r.corner_radius == (self.corner_radius * zoom) / (ZOOM_ONE as int),
            r.wf(),
    {
        proof {
            lemma_scale_field_bounds(self.node_width as int, zoom as int);
            lemma_scale_field_bounds(self.header_height as int, zoom as int);
            lemma_scale_field_bounds(self.cache_height as int, zoom as int);
            lemma_scale_field_bounds(self.row_height as int, zoom as int);
            lemma_scale_field_bounds(self.padding as int, zoom as int);
            lemma_scale_field_bounds(self.corner_radius as int, zoom as int);
        }
        NodeLayout {
            node_width: floor_div(self.node_width * zoom, ZOOM_ONE),
            header_height: floor_div(self.header_height * zoom, ZOOM_ONE),
            cache_height: floor_div(self.cache_height * zoom, ZOOM_ONE),
            row_height: floor_div(self.row_height * zoom, ZOOM_ONE),
            padding: floor_div(self.padding * zoom, ZOOM_ONE),
            corner_radius: floor_div(self.corner_radius * zoom, ZOOM_ONE),
        }
    }
}

/// Scaling a bounded layout field by a permitted zoom keeps it bounded,
/// and keeps a field of at least a pixel at no less than the minimum
/// zoom's worth of it.
proof fn lemma_scale_field_bounds(f: int, zoom: int)
    requires
        0 <= f <= 10_000_000,
        MIN_ZOOM <= zoom <= MAX_ZOOM,
    ensures
        0 <= f * zoom <= 40_000_000_000,
        0 <= (f * zoom) / (ZOOM_ONE as int) <= 40_000_000,
        f >= 1000 ==> (f * zoom) / (ZOOM_ONE as int) >= 200,
{
    assert(0 <= f * zoom <= 40_000_000_000) by (nonlinear_arith)
        requires
            0 <= f <= 10_000_000,
            200 <= zoom <= 4000,
    ;
    assert(f >= 1000 ==> f * zoom >= 200_000) by (nonlinear_arith)
        requires
            200 <= zoom,
            0 <= f,
    ;
    vstd::arithmetic::div_mod::lemma_fundamental_div_mod(f * zoom, 1000);
    vstd::arithmetic::div_mod::lemma_mod_bound(f * zoom, 1000);
    let q = (f * zoom) / 1000;
    assert(0 <= q <= 40_000_000 && (f >= 1000 ==> q >= 200)) by (nonlinear_arith)
        requires
            f * zoom == 1000 * q + (f * zoom) % 1000,
            0 <= (f * zoom) % 1000 < 1000,
            0 <= f * zoom <= 40_000_000_000,
            200 <= zoom <= 4000,
            0 <= f,
            f >= 1000 ==> f * zoom >= 200_000,
    ;
}

impl Default for NodeLayout {
    /// The unscaled layout constants, in fixed-point units.
    fn default() -> (r: NodeLayout)
        ensures
            r == (NodeLayout {
                node_width: 180_000,
                header_height: 22_000,
                cache_height: 20_000,
                row_height: 18_000,
                padding: 8_000,
                corner_radius: 6_000,
            }),
            r.base_wf(),
            r.wf(),
    {
        NodeLayout {
            node_width: 180_000,
            header_height: 22_000,
            cache_height: 20_000,
            row_height: 18_000,
            padding: 8_000,
            corner_radius: 6_000,
        }
    }
}

/// The layout a frame at zoom `zoom` works with: the default constants
/// scaled exactly (they are whole pixels, so no rounding occurs).
pub open spec fn frame_layout_spec(zoom: int) -> NodeLayout {
    NodeLayout {
        node_width: (180 * zoom) as i64,
        header_height: (22 * zoom) as i64,
        cache_height: (20 * zoom) as i64,
        row_height: (18 * zoom) as i64,
        padding: (8 * zoom) as i64,
        corner_radius: (6 * zoom) as i64,
    }
}

/// Scaling the default layout gives exactly the frame layout.
pub proof fn lemma_frame_layout(zoom: int, r: NodeLayout)
    requires
        MIN_ZOOM <= zoom <= MAX_ZOOM,
        r.node_width == (180_000 * zoom) / (ZOOM_ONE as int),
        r.header_height == (22_000 * zoom) / (ZOOM_ONE as int),
        r.cache_height == (20_000 * zoom) / (ZOOM_ONE as int),
        r.row_height == (18_000 * zoom) / (ZOOM_ONE as int),
        r.padding == (8_000 * zoom) / (ZOOM_ONE as int),
        r.corner_radius == (6_000 * zoom) / (ZOOM_ONE as int),
    ensures
        r == frame_layout_spec(zoom),
{
    vstd::arithmetic::div_mod::lemma_div_multiples_vanish(180 * zoom, 1000);
    vstd::arithmetic::div_mod::lemma_div_multiples_vanish(22 * zoom, 1000);
    vstd::arithmetic::div_mod::lemma_div_multiples_vanish(20 * zoom, 1000);
    vstd::arithmetic::div_mod::lemma_div_multiples_vanish(18 * zoom, 1000);
    vstd::arithmetic::div_mod::lemma_div_multiples_vanish(8 * zoom, 1000);
    vstd::arithmetic::div_mod::lemma_div_multiples_vanish(6 * zoom, 1000);
}

/// The number of port rows a node occupies: its larger port count, and at
/// least one.
pub open spec fn row_count_spec(node: Node) -> int {
    imax(imax(node.inputs@.len() as int, node.outputs@.len() as int), 1)
}

/// The height of a node under a frame layout.
pub open spec fn node_height_spec(node: Node, layout: NodeLayout) -> int {
    layout.header_height + layout.cache_height + layout.padding + layout.row_height * row_count_spec(
        node,
    ) + layout.padding
}

/// The on-screen size of a node: the precomputed width and the height
/// from its row count.
pub fn node_size(node: &Node, layout: &NodeLayout, node_width: i64) -> (r: Vec2i)
    requires
        layout.wf(),
        ports_bounded(*node),
        200 <= node_width <= NODE_WIDTH_LIMIT,
    ensures
        r.x == node_width,
        r.y == node_height_spec(*node, *layout),
        0 < r.y <= NODE_EXTENT_LIMIT,
{
    let in_count = node.inputs.len();
    let out_count = node.outputs.len();
    let mut rows: usize = if in_count >= out_count {
        in_count
    } else {
        out_count
    };
    if rows < 1 {
        rows = 1;
    }
    proof {
        assert(layout.row_height * rows <= 40_000_000 * 10_000 && layout.row_height * rows
            >= layout.row_height) by (nonlinear_arith)
            requires
                1 <= rows <= 10_000,
                200 <= layout.row_height <= 40_000_000,
        ;
    }
    let height = layout.header_height + layout.cache_height + layout.padding + layout.row_height
        * (rows as i64) + layout.padding;
    Vec2i { x: node_width, y: height }
}

/// Where a node's rectangle lands on screen: its graph position scaled by
/// the zoom, offset from the pan-shifted origin, extended by its size.
pub fn node_rect_for_graph(
    origin: Vec2i,
    node: &Node,
    zoom: i64,
    layout: &NodeLayout,
    node_width: i64,
) -> (r: Recti)
    requires
        origin.origin_bounded(),
        node.pos.in_bounds(),
        MIN_ZOOM <= zoom <= MAX_ZOOM,
        layout.wf(),
        ports_bounded(*node),
        200 <= node_width <= NODE_WIDTH_LIMIT,
    ensures
        r.min.x == origin.x + (node.pos.x * zoom) / (ZOOM_ONE as int),
        r.min.y == origin.y + (node.pos.y * zoom) / (ZOOM_ONE as int),
        r.max.x == r.min.x + node_width,
        r.max.y == r.min.y + node_height_spec(*node, *layout),
        r.min.x <= r.max.x && r.min.y <= r.max.y,
        -SCREEN_LIMIT <= r.min.x && r.max.x <= SCREEN_LIMIT,
        -SCREEN_LIMIT <= r.min.y && r.max.y <= SCREEN_LIMIT,
{
    proof {
        lemma_pos_scale_bounds(node.pos.x as int, zoom as int);
        lemma_pos_scale_bounds(node.pos.y as int, zoom as int);
    }
    let sx = floor_div(node.pos.x * zoom, ZOOM_ONE);
    let sy = floor_div(node.pos.y * zoom, ZOOM_ONE);
    let size = node_size(node, layout, node_width);
    let min = Vec2i { x: origin.x + sx, y: origin.y + sy };
    Recti { min, max: Vec2i { x: min.x + size.x, y: min.y + size.y } }
}

/// Scaling a stored coordinate by a permitted zoom stays well inside the
/// derived-geometry bound.
proof fn lemma_pos_scale_bounds(p: int, zoom: int)
    requires
        -crate::geom::COORD_LIMIT <= p <= crate::geom::COORD_LIMIT,
        MIN_ZOOM <= zoom <= MAX_ZOOM,
    ensures
        -2_000_000_000_000 <= p * zoom <= 2_000_000_000_000,
        -2_000_000_001 <= (p * zoom) / (ZOOM_ONE as int) <= 2_000_000_000,
{
    assert(-2_000_000_000_000 <= p * zoom <= 2_000_000_000_000) by (nonlinear_arith)
        requires
            -500_000_000 <= p <= 500_000_000,
            200 <= zoom <= 4000,
    ;
    vstd::arithmetic::div_mod::lemma_fundamental_div_mod(p * zoom, 1000);
    vstd::arithmetic::div_mod::lemma_mod_bound(p * zoom, 1000);
    let q = (p * zoom) / 1000;
    assert(-2_000_000_001 <= q <= 2_000_000_000) by (nonlinear_arith)
        requires
            p * zoom == 1000 * q + (p * zoom) % 1000,
            0 <= (p * zoom) % 1000 < 1000,
            -2_000_000_000_000 <= p * zoom <= 2_000_000_000_000,
    ;
}

/// The visual port radius at a zoom level: five and a half pixels scaled,
/// clamped between three and seven and a half pixels.
pub fn port_radius_for_scale(zoom: i64) -> (r: i64)
    requires
        MIN_ZOOM <= zoom <= MAX_ZOOM,
    ensures
        r == imin(imax((5_500 * zoom) / (ZOOM_ONE as int), 3_000), 7_500),
        3_000 <= r <= 7_500,
{
    let scaled = floor_div(5_500 * zoom, ZOOM_ONE);
    min_i64(max_i64(scaled, 3_000), 7_500)
}

/// The vertical center of port row `index` within a node, measured from
/// the node's screen top.
pub open spec fn port_row_center_spec(layout: NodeLayout, index: int) -> int {
    layout.header_height + layout.cache_height + layout.padding + layout.row_height * index
        + layout.row_height / 2
}

/// The screen center of input port `index` of a node: on the node's left
/// edge, at its row's center.
pub fn node_input_pos(origin: Vec2i, node: &Node, index: usize, layout: &NodeLayout, zoom: i64) -> (r:
    Vec2i)
    requires
        origin.origin_bounded(),
        node.pos.in_bounds(),
        index < node.inputs@.len(),
        ports_bounded(*node),
        layout.wf(),
        MIN_ZOOM <= zoom <= MAX_ZOOM,
    ensures
        r.x == origin.x + (node.pos.x * zoom) / (ZOOM_ONE as int),
        r.y == origin.y + (node.pos.y * zoom) / (ZOOM_ONE as int) + port_row_center_spec(
            *layout,
            index as int,
        ),
        -SCREEN_LIMIT <= r.x <= SCREEN_LIMIT,
        -SCREEN_LIMIT <= r.y <= SCREEN_LIMIT,
{
    proof {
        lemma_pos_scale_bounds(node.pos.x as int, zoom as int);
        lemma_pos_scale_bounds(node.pos.y as int, zoom as int);
        assert(0 <= layout.row_height * index < 40_000_000 * 10_000) by (nonlinear_arith)
            requires
                0 <= index < 10_000,
                200 <= layout.row_height <= 40_000_000,
        ;
    }
    let sx = floor_div(node.pos.x * zoom, ZOOM_ONE);
    let sy = floor_div(node.pos.y * zoom, ZOOM_ONE);
    let row_offset = layout.header_height + layout.cache_height + layout.padding
        + layout.row_height * (index as i64) + layout.row_height / 2;
    Vec2i { x: origin.x + sx, y: origin.y + sy + row_offset }
}

/// The screen center of output port `index` of a node: on the node's
/// right edge, at its row's center.
pub fn node_output_pos(
    origin: Vec2i,
    node: &Node,
    index: usize,
    layout: &NodeLayout,
    zoom: i64,
    node_width: i64,
) -> (r: Vec2i)
    requires
        origin.origin_bounded(),
        node.pos.in_bounds(),
        index < node.outputs@.len(),
        ports_bounded(*node),
        layout.wf(),
        MIN_ZOOM <= zoom <= MAX_ZOOM,
        200 <= node_width <= NODE_WIDTH_LIMIT,
    ensures
        r.x == origin.x + (node.pos.x * zoom) / (ZOOM_ONE as int) + node_width,
        r.y == origin.y + (node.pos.y * zoom) / (ZOOM_ONE as int) + port_row_center_spec(
            *layout,
            index as int,
        ),
        -SCREEN_LIMIT <= r.x <= SCREEN_LIMIT,
        -SCREEN_LIMIT <= r.y <= SCREEN_LIMIT,
{
    proof {
        lemma_pos_scale_bounds(node.pos.x as int, zoom as int);
        lemma_pos_scale_bounds(node.pos.y as int, zoom as int);
        assert(0 <= layout.row_height * index < 40_000_000 * 10_000) by (nonlinear_arith)
            requires
                0 <= index < 10_000,
                200 <= layout.row_height <= 40_000_000,
        ;
    }
    let sx = floor_div(node.pos.x * zoom, ZOOM_ONE);
    let sy = floor_div(node.pos.y * zoom, ZOOM_ONE);
    let row_offset = layout.header_height + layout.cache_height + layout.padding
        + layout.row_height * (index as i64) + layout.row_height / 2;
    Vec2i { x: origin.x + sx + node_width, y: origin.y + sy + row_offset }
}

/// The horizontal pull of a connection curve's control points: half the
/// horizontal span, and no less than forty pixels' worth of zoom.
pub open spec fn bezier_control_offset_spec(start_x: int, end_x: int, zoom: int) -> int {
    let dx = if end_x >= start_x {
        end_x - start_x
    } else {
        start_x - end_x
    };
    imax(dx / 2, 40 * zoom)
}

/// Control-point offset for the curve between two port centers.
pub fn bezier_control_offset(start: Vec2i, end: Vec2i, zoom: i64) -> (r: i64)
    requires
        -SCREEN_LIMIT <= start.x <= SCREEN_LIMIT,
        -SCREEN_LIMIT <= end.x <= SCREEN_LIMIT,
        MIN_ZOOM <= zoom <= MAX_ZOOM,
    ensures
        r == bezier_control_offset_spec(start.x as int, end.x as int, zoom as int),
        8_000 <= r <= SCREEN_LIMIT + 1,
{
    let dx: i64 = if end.x >= start.x {
        end.x - start.x
    } else {
        start.x - end.x
    };
    max_i64(dx / 2, 40 * zoom)
}

/// Measured text widths for one node at the current zoom: the header
/// label, each port label, and the wider of the cache toggle's labels.
#[derive(Clone, Debug)]
pub struct NodeTextWidths {
    pub header: i64,
    pub inputs: Vec<i64>,
    pub outputs: Vec<i64>,
    pub cache_label: i64,
}

impl NodeTextWidths {
    /// Every measured width is non-negative and bounded.
    pub open spec fn wf(self) -> bool {
        &&& 0 <= self.header <= TEXT_WIDTH_LIMIT
        &&& forall|i: int| 0 <= i < self.inputs@.len() ==> 0 <= #[trigger] self.inputs@[i] <= TEXT_WIDTH_LIMIT
        &&& forall|i: int|
            0 <= i < self.outputs@.len() ==> 0 <= #[trigger] self.outputs@[i] <= TEXT_WIDTH_LIMIT
        &&& 0 <= self.cache_label <= TEXT_WIDTH_LIMIT
    }

    /// The measurements line up with the node's ports.
    pub open spec fn matches(self, node: Node) -> bool {
        self.inputs@.len() == node.inputs@.len() && self.outputs@.len() == node.outputs@.len()
    }
}

/// The label width of row `i`'s left or right side, zero where the side
/// has no port.
pub open spec fn side_width_at(v: Seq<i64>, i: int) -> int {
    if 0 <= i < v.len() {
        v[i] as int
    } else {
        0
    }
}

/// The width of the widest of the first `rows` port rows: two paddings
/// plus both label widths.
pub open spec fn max_row_width_spec(m: NodeTextWidths, padding: int, rows: int) -> int
    decreases rows,
{
    if rows <= 0 {
        0
    } else {
        imax(
            max_row_width_spec(m, padding, rows - 1),
            padding * 2 + side_width_at(m.inputs@, rows - 1) + side_width_at(m.outputs@, rows - 1),
        )
    }
}

/// Row widths stay within linear bounds of their parts.
proof fn lemma_max_row_width_bounds(m: NodeTextWidths, padding: int, rows: int)
    requires
        m.wf(),
        0 <= padding <= 40_000_000,
        rows >= 0,
    ensures
        0 <= max_row_width_spec(m, padding, rows) <= 2 * padding + 2 * TEXT_WIDTH_LIMIT,
    decreases rows,
{
    if rows > 0 {
        lemma_max_row_width_bounds(m, padding, rows - 1);
    }
}

/// The height of the cache toggle under a frame layout.
pub open spec fn cache_button_height_spec(layout: NodeLayout) -> int {
    let vertical_padding = (layout.padding * CACHE_BUTTON_VERTICAL_PAD_FACTOR) / 1000;
    let floor_size = 10 * (layout.row_height / 18);
    imin(imax(layout.cache_height - vertical_padding * 2, floor_size), layout.cache_height as int)
}

/// The width of the cache toggle: proportional to its height, and no
/// narrower than its label plus padding.
pub open spec fn cache_button_width_spec(m: NodeTextWidths, layout: NodeLayout) -> int {
    let h = cache_button_height_spec(layout);
    let text_pad = (layout.padding * CACHE_BUTTON_TEXT_PAD_FACTOR) / 1000;
    imax(imax((h * CACHE_BUTTON_WIDTH_FACTOR) / 1000, h), m.cache_label + text_pad * 2)
}

/// The width the cache row asks of the node, zero when the layout has no
/// cache row.
pub open spec fn cache_row_width_spec(m: NodeTextWidths, layout: NodeLayout) -> int {
    if layout.cache_height > 0 {
        layout.padding + cache_button_width_spec(m, layout) + layout.padding
    } else {
        0
    }
}

/// The width the status-dot row asks of the node: two dots and a gap
/// between paddings.
pub open spec fn status_row_width_spec(layout: NodeLayout, style: GraphStyle) -> int {
    layout.padding + 2 * (style.status_dot_radius * 2) + style.status_item_gap + layout.padding
}

/// The computed width of a node: the widest of the configured minimum,
/// the header label, the widest port row, the cache row and the status
/// row.
pub open spec fn node_width_spec(
    m: NodeTextWidths,
    layout: NodeLayout,
    style: GraphStyle,
    rows: int,
) -> int {
    imax(
        layout.node_width as int,
        imax(
            imax(m.header + layout.padding * 2, max_row_width_spec(m, layout.padding as int, rows)),
            imax(cache_row_width_spec(m, layout), status_row_width_spec(layout, style)),
        ),
    )
}

/// Compute every node's width for one frame from the measured text
/// widths, one entry per node in node order.
#[verifier::loop_isolation(false)]
pub fn compute_node_widths(
    graph: &Graph,
    layout: &NodeLayout,
    style: &GraphStyle,
    measures: &Vec<NodeTextWidths>,
) -> (r: Vec<i64>)
    requires
        layout.wf(),
        style.wf(),
        measures@.len() == graph.nodes@.len(),
        forall|i: int|
            0 <= i < graph.nodes@.len() ==> (#[trigger] measures@[i]).wf() && measures@[i].matches(
                graph.nodes@[i],
            ) && ports_bounded(graph.nodes@[i]),
    ensures
        r@.len() == graph.nodes@.len(),
        forall|i: int|
            0 <= i < graph.nodes@.len() ==> #[trigger] r@[i] == node_width_spec(
                measures@[i],
                *layout,
                *style,
                row_count_spec(graph.nodes@[i]),
            ) && 200 <= r@[i] <= NODE_WIDTH_LIMIT,
{
    let n = graph.nodes.len();
    let mut widths: Vec<i64> = Vec::new();
    let mut i: usize = 0;
    while i < n
        invariant
            i <= n,
            widths@.len() == i,
            forall|k: int|
                0 <= k < i ==> #[trigger] widths@[k] == node_width_spec(
                    measures@[k],
                    *layout,
                    *style,
                    row_count_spec(graph.nodes@[k]),
                ) && 200 <= widths@[k] <= NODE_WIDTH_LIMIT,
        decreases n - i,
    {
        let m = &measures[i];
        let header_width = m.header + layout.padding * 2;

        let in_count = m.inputs.len();
        let out_count = m.outputs.len();
        let mut rows: usize = if in_count >= out_count {
            in_count
        } else {
            out_count
        };
        if rows < 1 {
            rows = 1;
        }
        proof {
            assert(rows as int == row_count_spec(graph.nodes@[i as int]));
            lemma_max_row_width_bounds(measures@[i as int], layout.padding as int, rows as int);
        }
        let mut max_row_width: i64 = 0;
        let mut row: usize = 0;
        while row < rows
            invariant
                row <= rows,
                max_row_width == max_row_width_spec(
                    measures@[i as int],
                    layout.padding as int,
                    row as int,
                ),
                0 <= max_row_width <= 2 * layout.padding + 2 * TEXT_WIDTH_LIMIT,
            decreases rows - row,
        {
            let left: i64 = if row < m.inputs.len() {
                m.inputs[row]
            } else {
                0
            };
            let right: i64 = if row < m.outputs.len() {
                m.outputs[row]
            } else {
                0
            };
            let row_width = layout.padding * 2 + left + right;
            max_row_width = max_i64(max_row_width, row_width);
            proof {
                lemma_max_row_width_bounds(
                    measures@[i as int],
                    layout.padding as int,
                    row as int + 1,
                );
            }
            row = row + 1;
        }

        let vertical_padding = (layout.padding * 400) / 1000;
        let floor_size = 10 * (layout.row_height / 18);
        let cache_button_height = min_i64(
            max_i64(layout.cache_height - vertical_padding * 2, floor_size),
            layout.cache_height,
        );
        let text_pad = (layout.padding * 500) / 1000;
        let cache_button_width = max_i64(
            max_i64((cache_button_height * 3100) / 1000, cache_button_height),
            m.cache_label + text_pad * 2,
        );
        let cache_row_width: i64 = if layout.cache_height > 0 {
            layout.padding + cache_button_width + layout.padding
        } else {
            0
        };
        let status_row_width = layout.padding + 2 * (style.status_dot_radius * 2)
            + style.status_item_gap + layout.padding;

        let computed = max_i64(
            layout.node_width,
            max_i64(
                max_i64(header_width, max_row_width),
                max_i64(cache_row_width, status_row_width),
            ),
        );
        widths.push(computed);
        i = i + 1;
    }
    widths
}

/// The interactive control regions of one node for one frame: the close
/// button, the cache toggle, and the part of the header that drags the
/// node (everything left of the controls and status dots).
#[derive(Clone, Copy, PartialEq, Eq, Structural, Debug)]
pub struct NodeControls {
    pub close: Recti,
    pub cache_button: Recti,
    pub header_drag: Recti,
}

/// The close button: a square at the header's right edge.
pub open spec fn close_rect_spec(rect: Recti, layout: NodeLayout, zoom: int) -> Recti {
    let button_size = imin(imax(layout.header_height - layout.padding, 12 * zoom), layout.header_height as int);
    let min = Vec2i {
        x: (rect.max.x - layout.padding - button_size) as i64,
        y: (rect.min.y + (layout.header_height - button_size) / 2) as i64,
    };
    Recti { min, max: (Vec2i { x: (min.x + button_size) as i64, y: (min.y + button_size) as i64 }) }
}

/// The right edge of the header's drag region: left of the close button
/// and of any status dots.
pub open spec fn header_drag_right_spec(
    rect: Recti,
    layout: NodeLayout,
    style: GraphStyle,
    zoom: int,
    terminal: bool,
    has_cached: bool,
) -> int {
    let close = close_rect_spec(rect, layout, zoom);
    if terminal || has_cached {
        let dot_step = style.status_dot_radius * 2 + style.status_item_gap;
        let x0 = close.min.x - layout.padding - style.status_dot_radius;
        let x1 = if terminal {
            x0 - dot_step
        } else {
            x0
        };
        let x2 = if has_cached {
            x1 - dot_step
        } else {
            x1
        };
        x2 + style.status_item_gap - layout.padding
    } else {
        close.min.x - layout.padding
    }
}

/// The cache toggle: a rounded button at the left of the cache row.
pub open spec fn cache_button_rect_spec(
    rect: Recti,
    layout: NodeLayout,
    m: NodeTextWidths,
    zoom: int,
) -> Recti {
    let vertical_padding = (layout.padding * CACHE_BUTTON_VERTICAL_PAD_FACTOR) / 1000;
    let h = if layout.cache_height > 0 {
        imin(imax(layout.cache_height - vertical_padding * 2, 10 * zoom), layout.cache_height as int)
    } else {
        0
    };
    let text_pad = (layout.padding * CACHE_BUTTON_TEXT_PAD_FACTOR) / 1000;
    let label = if layout.cache_height > 0 {
        m.cache_label as int
    } else {
        0
    };
    let w = imax(imax((h * CACHE_BUTTON_WIDTH_FACTOR) / 1000, h), label + text_pad * 2);
    let min = Vec2i {
        x: (rect.min.x + layout.padding) as i64,
        y: (rect.min.y + layout.header_height + (layout.cache_height - h) / 2) as i64,
    };
    Recti { min, max: (Vec2i { x: (min.x + w) as i64, y: (min.y + h) as i64 }) }
}

/// Compute the control regions of one node from its frame rectangle.
pub fn node_controls(
    rect: Recti,
    layout: &NodeLayout,
    style: &GraphStyle,
    m: &NodeTextWidths,
    zoom: i64,
    terminal: bool,
    has_cached: bool,
) -> (r: NodeControls)
    requires
        layout.wf(),
        style.wf(),
        m.wf(),
        MIN_ZOOM <= zoom <= MAX_ZOOM,
        -SCREEN_LIMIT <= rect.min.x <= rect.max.x <= SCREEN_LIMIT,
        -SCREEN_LIMIT <= rect.min.y <= rect.max.y <= SCREEN_LIMIT,
    ensures
        r.close == close_rect_spec(rect, *layout, zoom as int),
        r.cache_button == cache_button_rect_spec(rect, *layout, *m, zoom as int),
        r.header_drag == (Recti {
            min: rect.min,
            max: (Vec2i {
                x: header_drag_right_spec(
                    rect,
                    *layout,
                    *style,
                    zoom as int,
                    terminal,
                    has_cached,
                ) as i64,
                y: (rect.min.y + layout.header_height) as i64,
            }),
        }),
{
    let button_size = min_i64(
        max_i64(layout.header_height - layout.padding, 12 * zoom),
        layout.header_height,
    );
    let close_min = Vec2i {
        x: rect.max.x - layout.padding - button_size,
        y: rect.min.y + (layout.header_height - button_size) / 2,
    };
    let close = Recti {
        min: close_min,
        max: Vec2i { x: close_min.x + button_size, y: close_min.y + button_size },
    };

    let header_drag_right: i64 = if terminal || has_cached {
        let dot_step = style.status_dot_radius * 2 + style.status_item_gap;
        let x0 = close.min.x - layout.padding - style.status_dot_radius;
        let x1 = if terminal {
            x0 - dot_step
        } else {
            x0
        };
        let x2 = if has_cached {
            x1 - dot_step
        } else {
            x1
        };
        x2 + style.status_item_gap - layout.padding
    } else {
        close.min.x - layout.padding
    };
    let header_drag = Recti {
        min: rect.min,
        max: Vec2i { x: header_drag_right, y: rect.min.y + layout.header_height },
    };

    let vertical_padding = (layout.padding * 400) / 1000;
    let h: i64 = if layout.cache_height > 0 {
        min_i64(
            max_i64(layout.cache_height - vertical_padding * 2, 10 * zoom),
            layout.cache_height,
        )
    } else {
        0
    };
    let text_pad = (layout.padding * 500) / 1000;
    let label: i64 = if layout.cache_height > 0 {
        m.cache_label
    } else {
        0
    };
    let w = max_i64(max_i64((h * 3100) / 1000, h), label + text_pad * 2);
    let cache_min = Vec2i {
        x: rect.min.x + layout.padding,
        y: rect.min.y + layout.header_height + (layout.cache_height - h) / 2,
    };
    let cache_button = Recti {
        min: cache_min,
        max: Vec2i { x: cache_min.x + w, y: cache_min.y + h },
    };

    NodeControls { close, cache_button, header_drag }
}

} // verus!
