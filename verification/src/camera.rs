//! Camera actions the host invokes outside the per-tick gesture flow:
//! reset the view, fit every node into the viewport, and center the
//! selected node. All of them work from node bounds measured at unit
//! zoom.

use vstd::prelude::*;

use crate::geom::floor_div;
use crate::geom::imax;
use crate::geom::imin;
use crate::geom::max_i64;
use crate::geom::min_i64;
use crate::geom::Recti;
use crate::geom::Vec2i;
use crate::geom::MAX_ZOOM;
use crate::geom::MIN_ZOOM;
use crate::geom::ZOOM_ONE;
use crate::layout::node_height_spec;
use crate::model::ports_bounded;
use crate::layout::NodeLayout;
use crate::layout::NODE_WIDTH_LIMIT;
use crate::model::Graph;
use crate::viewport::clamp_zoom_spec;
use crate::viewport::graph_to_screen_axis_spec;

verus! {

/// Screen padding kept around the fitted bounds, in fixed-point units.
pub const FIT_PADDING: i64 = 24_000;

/// The smallest left edge among the first `n` nodes' unit-zoom bounds.
pub open spec fn fit_min_x(g: Graph, n: int) -> int
    decreases n,
{
    if n <= 1 {
        g.nodes@[0].pos.x as int
    } else {
        imin(fit_min_x(g, n - 1), g.nodes@[n - 1].pos.x as int)
    }
}

/// The smallest top edge among the first `n` nodes' unit-zoom bounds.
pub open spec fn fit_min_y(g: Graph, n: int) -> int
    decreases n,
{
    if n <= 1 {
        g.nodes@[0].pos.y as int
    } else {
        imin(fit_min_y(g, n - 1), g.nodes@[n - 1].pos.y as int)
    }
}

/// The largest right edge among the first `n` nodes' unit-zoom bounds.
pub open spec fn fit_max_x(g: Graph, widths: Seq<i64>, n: int) -> int
    decreases n,
{
    if n <= 1 {
        g.nodes@[0].pos.x + widths[0]
    } else {
        imax(fit_max_x(g, widths, n - 1), g.nodes@[n - 1].pos.x + widths[n - 1])
    }
}

/// The largest bottom edge among the first `n` nodes' unit-zoom bounds.
pub open spec fn fit_max_y(g: Graph, layout: NodeLayout, n: int) -> int
    decreases n,
{
    if n <= 1 {
        g.nodes@[0].pos.y + node_height_spec(g.nodes@[0], layout)
    } else {
        imax(
            fit_max_y(g, layout, n - 1),
            g.nodes@[n - 1].pos.y + node_height_spec(g.nodes@[n - 1], layout),
        )
    }
}

/// The zoom fit-all derives for one axis: the padded viewport span over
/// the bounds span, or unit zoom for a degenerate span.
pub open spec fn fit_axis_zoom_spec(avail: int, span: int) -> int {
    if span > 0 {
        (avail * (ZOOM_ONE as int)) / span
    } else {
        ZOOM_ONE as int
    }
}

/// Set zoom to one and pan to zero.
pub fn reset_view(graph: &mut Graph)
    ensures
        *final(graph) == (Graph {
            zoom: ZOOM_ONE as i64,
            pan: (Vec2i { x: 0, y: 0 }),
            ..*old(graph)
        }),
{
    graph.zoom = ZOOM_ONE;
    graph.pan = Vec2i::zero();
}

/// The unit-zoom bounds of every node, as computed by fit-all.
pub open spec fn fit_bounds_spec(g: Graph, layout: NodeLayout, widths: Seq<i64>) -> Recti {
    let n = g.nodes@.len() as int;
    Recti {
        min: (Vec2i { x: fit_min_x(g, n) as i64, y: fit_min_y(g, n) as i64 }),
        max: (Vec2i { x: fit_max_x(g, widths, n) as i64, y: fit_max_y(g, layout, n) as i64 }),
    }
}

/// Fit every node into the viewport: an empty graph resets the camera;
/// otherwise the zoom becomes the padded viewport span over the union
/// bounds span (clamped to the permitted range) and the pan centers the
/// bounds in the viewport.
#[verifier::loop_isolation(false)]
pub fn fit_all_nodes(graph: &mut Graph, viewport: Recti, layout: &NodeLayout, widths: &Vec<i64>)
    requires
        old(graph).geometry_bounded(),
        layout.wf(),
        viewport.min.in_bounds(),
        viewport.max.in_bounds(),
        viewport.min.x <= viewport.max.x && viewport.min.y <= viewport.max.y,
        widths@.len() == old(graph).nodes@.len(),
        forall|k: int|
            0 <= k < old(graph).nodes@.len() ==> 200 <= #[trigger] widths@[k] <= NODE_WIDTH_LIMIT,
        forall|k: int|
            0 <= k < old(graph).nodes@.len() ==> ports_bounded(#[trigger] old(graph).nodes@[k]),
    ensures
        final(graph).nodes == old(graph).nodes,
        final(graph).id == old(graph).id,
        final(graph).selected_node_id == old(graph).selected_node_id,
        MIN_ZOOM <= final(graph).zoom <= MAX_ZOOM,
        final(graph).pan.pan_bounded(),
        old(graph).nodes@.len() == 0 ==> final(graph).zoom == ZOOM_ONE && final(graph).pan == (
        Vec2i { x: 0, y: 0 }),
        old(graph).nodes@.len() > 0 ==> ({
            let b = fit_bounds_spec(*old(graph), *layout, widths@);
            let zx = fit_axis_zoom_spec(
                viewport.max.x - viewport.min.x - 2 * FIT_PADDING,
                b.max.x - b.min.x,
            );
            let zy = fit_axis_zoom_spec(
                viewport.max.y - viewport.min.y - 2 * FIT_PADDING,
                b.max.y - b.min.y,
            );
            let z = clamp_zoom_spec(imin(zx, zy));
            let cx = (b.min.x + b.max.x) / 2;
            let cy = (b.min.y + b.max.y) / 2;
            &&& final(graph).zoom == z
            &&& final(graph).pan.x == (viewport.min.x + viewport.max.x) / 2 - viewport.min.x - (cx
                * z) / (ZOOM_ONE as int)
            &&& final(graph).pan.y == (viewport.min.y + viewport.max.y) / 2 - viewport.min.y - (cy
                * z) / (ZOOM_ONE as int)
        }),
{
    let n = graph.nodes.len();
    if n == 0 {
        graph.zoom = ZOOM_ONE;
        graph.pan = Vec2i::zero();
        return ;
    }
    let mut min_x: i64 = graph.nodes[0].pos.x;
    let mut min_y: i64 = graph.nodes[0].pos.y;
    let first_size = crate::layout::node_size(&graph.nodes[0], layout, widths[0]);
    let mut max_x: i64 = graph.nodes[0].pos.x + first_size.x;
    let mut max_y: i64 = graph.nodes[0].pos.y + first_size.y;
    let mut i: usize = 1;
    while i < n
        invariant
            1 <= i <= n,
            min_x == fit_min_x(*graph, i as int),
            min_y == fit_min_y(*graph, i as int),
            max_x == fit_max_x(*graph, widths@, i as int),
            max_y == fit_max_y(*graph, *layout, i as int),
            -crate::geom::COORD_LIMIT <= min_x <= crate::geom::COORD_LIMIT,
            -crate::geom::COORD_LIMIT <= min_y <= crate::geom::COORD_LIMIT,
            -crate::geom::COORD_LIMIT <= max_x <= crate::geom::COORD_LIMIT + NODE_WIDTH_LIMIT,
            -crate::geom::COORD_LIMIT <= max_y <= crate::geom::COORD_LIMIT
                + crate::layout::NODE_EXTENT_LIMIT,
        decreases n - i,
    {
        let size = crate::layout::node_size(&graph.nodes[i], layout, widths[i]);
        min_x = min_i64(min_x, graph.nodes[i].pos.x);
        min_y = min_i64(min_y, graph.nodes[i].pos.y);
        max_x = max_i64(max_x, graph.nodes[i].pos.x + size.x);
        max_y = max_i64(max_y, graph.nodes[i].pos.y + size.y);
        i = i + 1;
    }
    let avail_x = viewport.max.x - viewport.min.x - 2 * FIT_PADDING;
    let avail_y = viewport.max.y - viewport.min.y - 2 * FIT_PADDING;
    let span_x = max_x - min_x;
    let span_y = max_y - min_y;
    let zoom_x: i64 = if span_x > 0 {
        floor_div(avail_x * ZOOM_ONE, span_x)
    } else {
        ZOOM_ONE
    };
    let zoom_y: i64 = if span_y > 0 {
        floor_div(avail_y * ZOOM_ONE, span_y)
    } else {
        ZOOM_ONE
    };
    let raw = min_i64(zoom_x, zoom_y);
    let target: i64 = if raw < MIN_ZOOM {
        MIN_ZOOM
    } else if raw > MAX_ZOOM {
        MAX_ZOOM
    } else {
        raw
    };
    graph.zoom = target;
    let cx = floor_div(min_x + max_x, 2);
    let cy = floor_div(min_y + max_y, 2);
    proof {
        assert(-6_000_000_000_000_000 <= cx * target <= 6_000_000_000_000_000)
            by (nonlinear_arith)
            requires
                -1_500_000_000_000 <= cx <= 1_500_000_000_000,
                MIN_ZOOM <= target <= MAX_ZOOM,
        ;
        assert(-6_000_000_000_000_000 <= cy * target <= 6_000_000_000_000_000)
            by (nonlinear_arith)
            requires
                -1_500_000_000_000 <= cy <= 1_500_000_000_000,
                MIN_ZOOM <= target <= MAX_ZOOM,
        ;
    }
    let sx = floor_div(cx * target, ZOOM_ONE);
    let sy = floor_div(cy * target, ZOOM_ONE);
    let vcx = floor_div(viewport.min.x + viewport.max.x, 2);
    let vcy = floor_div(viewport.min.y + viewport.max.y, 2);
    graph.pan = Vec2i { x: vcx - viewport.min.x - sx, y: vcy - viewport.min.y - sy };
    proof {
        assert(graph.pan.pan_bounded());
    }
}

/// With the pan fit-all solves for, the bounds center lands exactly on
/// the viewport center.
pub proof fn lemma_fit_centers_bounds(center: int, vmin: int, vcenter: int, zoom: int)
    ensures
        graph_to_screen_axis_spec(
            center,
            vmin,
            vcenter - vmin - (center * zoom) / (ZOOM_ONE as int),
            zoom,
        ) == vcenter,
{
}

/// A padded viewport no wider than the fitted bounds in some axis keeps
/// the fit-all zoom at or below unit zoom.
pub proof fn lemma_fit_zoom_at_most_unit(avail_x: int, avail_y: int, span_x: int, span_y: int)
    requires
        span_x > 0,
        span_y > 0,
        avail_x <= span_x || avail_y <= span_y,
    ensures
        clamp_zoom_spec(
            imin(fit_axis_zoom_spec(avail_x, span_x), fit_axis_zoom_spec(avail_y, span_y)),
        ) <= ZOOM_ONE,
{
    if avail_x <= span_x {
        assert(avail_x * 1000 <= span_x * 1000) by (nonlinear_arith)
            requires
                avail_x <= span_x,
        ;
        vstd::arithmetic::div_mod::lemma_div_multiples_vanish(1000, span_x);
        assert(span_x * 1000 == 1000 * span_x) by (nonlinear_arith);
        vstd::arithmetic::div_mod::lemma_div_is_ordered(avail_x * 1000, span_x * 1000, span_x);
        assert((avail_x * 1000) / span_x <= 1000);
    } else {
        assert(avail_y * 1000 <= span_y * 1000) by (nonlinear_arith)
            requires
                avail_y <= span_y,
        ;
        vstd::arithmetic::div_mod::lemma_div_multiples_vanish(1000, span_y);
        assert(span_y * 1000 == 1000 * span_y) by (nonlinear_arith);
        vstd::arithmetic::div_mod::lemma_div_is_ordered(avail_y * 1000, span_y * 1000, span_y);
        assert((avail_y * 1000) / span_y <= 1000);
    }
}

/// Center the selected node at unit zoom. Without a selection, or with a
/// selection no node carries, the graph is untouched.
pub fn view_selected_node(graph: &mut Graph, viewport: Recti, layout: &NodeLayout, widths: &Vec<
    i64,
>)
    requires
        old(graph).ids_unique(),
        old(graph).geometry_bounded(),
        layout.wf(),
        viewport.min.in_bounds(),
        viewport.max.in_bounds(),
        viewport.min.x <= viewport.max.x && viewport.min.y <= viewport.max.y,
        widths@.len() == old(graph).nodes@.len(),
        forall|k: int|
            0 <= k < old(graph).nodes@.len() ==> 200 <= #[trigger] widths@[k] <= NODE_WIDTH_LIMIT,
        forall|k: int|
            0 <= k < old(graph).nodes@.len() ==> ports_bounded(#[trigger] old(graph).nodes@[k]),
    ensures
        final(graph).nodes == old(graph).nodes,
        final(graph).id == old(graph).id,
        final(graph).selected_node_id == old(graph).selected_node_id,
        old(graph).selected_node_id is None || !old(graph).has_node(
            old(graph).selected_node_id->Some_0,
        ) ==> *final(graph) == *old(graph),
        (old(graph).selected_node_id is Some && old(graph).has_node(
            old(graph).selected_node_id->Some_0,
        )) ==> ({
            let k = old(graph).node_index_spec(old(graph).selected_node_id->Some_0);
            let node = old(graph).nodes@[k];
            let cx = node.pos.x + widths@[k] / 2;
            let cy = node.pos.y + node_height_spec(node, *layout) / 2;
            &&& final(graph).zoom == ZOOM_ONE
            &&& final(graph).pan.x == (viewport.min.x + viewport.max.x) / 2 - viewport.min.x - cx
            &&& final(graph).pan.y == (viewport.min.y + viewport.max.y) / 2 - viewport.min.y - cy
            &&& final(graph).pan.pan_bounded()
        }),
{
    let sel = match graph.selected_node_id {
        Some(sel) => sel,
        None => {
            return ;
        },
    };
    let k = match graph.node_index(sel) {
        Some(k) => k,
        None => {
            return ;
        },
    };
    proof {
        let w = graph.node_index_spec(sel);
        assert(0 <= w < graph.nodes@.len() && graph.nodes@[w].id == sel);
        if w != k as int {
            if w < k as int {
                assert(graph.nodes@[w].id != graph.nodes@[k as int].id);
            } else {
                assert(graph.nodes@[k as int].id != graph.nodes@[w].id);
            }
        }
    }
    let size = crate::layout::node_size(&graph.nodes[k], layout, widths[k]);
    let cx = graph.nodes[k].pos.x + size.x / 2;
    let cy = graph.nodes[k].pos.y + size.y / 2;
    let vcx = floor_div(viewport.min.x + viewport.max.x, 2);
    let vcy = floor_div(viewport.min.y + viewport.max.y, 2);
    graph.zoom = ZOOM_ONE;
    graph.pan = Vec2i { x: vcx - viewport.min.x - cx, y: vcy - viewport.min.y - cy };
}

} // verus!
