//! The viewport transform: the screen-space/graph-space mapping under pan
//! and zoom, zoom-to-cursor anchoring, and their round-trip guarantees.
//!
//! A screen coordinate is `origin + pan + graph * zoom / ZOOM_ONE`; the
//! inverse divides back out. Both directions round down to the grid, so
//! the round trips below are exact up to a few thousandths of a pixel.

use vstd::prelude::*;

use crate::geom::Vec2i;
use crate::geom::floor_div;
use crate::geom::COORD_LIMIT;
use crate::geom::MAX_ZOOM;
use crate::geom::MIN_ZOOM;
use crate::geom::PAN_LIMIT;
use crate::geom::ZOOM_ONE;

verus! {

/// Bound on a graph-space point recovered from any representable screen
/// point at the smallest zoom.
pub const GRAPH_POINT_LIMIT: i64 = 1_050_000_000_000_000;

/// One axis of the screen-to-graph mapping.
pub open spec fn screen_to_graph_axis_spec(s: int, origin: int, pan: int, zoom: int) -> int {
    ((s - origin - pan) * (ZOOM_ONE as int)) / zoom
}

/// One axis of the graph-to-screen mapping.
pub open spec fn graph_to_screen_axis_spec(g: int, origin: int, pan: int, zoom: int) -> int {
    origin + pan + (g * zoom) / (ZOOM_ONE as int)
}

/// The graph-space point under the screen point `s`, given the widget
/// origin and the camera.
pub fn screen_to_graph_axis(s: i64, origin: i64, pan: i64, zoom: i64) -> (r: i64)
    requires
        -COORD_LIMIT <= s <= COORD_LIMIT,
        -COORD_LIMIT <= origin <= COORD_LIMIT,
        -PAN_LIMIT <= pan <= PAN_LIMIT,
        MIN_ZOOM <= zoom <= MAX_ZOOM,
    ensures
        r == screen_to_graph_axis_spec(s as int, origin as int, pan as int, zoom as int),
        -GRAPH_POINT_LIMIT <= r <= GRAPH_POINT_LIMIT,
{
    let d: i64 = s - origin - pan;
    let q = floor_div(d * ZOOM_ONE, zoom);
    proof {
        let dd = (d * ZOOM_ONE) as int;
        assert(-GRAPH_POINT_LIMIT <= q <= GRAPH_POINT_LIMIT) by (nonlinear_arith)
            requires
                zoom * q <= dd < zoom * (q + 1),
                -210_000_000_000_000_000 <= dd <= 210_000_000_000_000_000,
                MIN_ZOOM <= zoom <= MAX_ZOOM,
        ;
    }
    q
}

/// The screen point where the graph-space point `g` lands, given the
/// widget origin and the camera.
pub fn graph_to_screen_axis(g: i64, origin: i64, pan: i64, zoom: i64) -> (r: i64)
    requires
        -2 * COORD_LIMIT <= g <= 2 * COORD_LIMIT,
        -COORD_LIMIT <= origin <= COORD_LIMIT,
        -PAN_LIMIT <= pan <= PAN_LIMIT,
        MIN_ZOOM <= zoom <= MAX_ZOOM,
    ensures
        r == graph_to_screen_axis_spec(g as int, origin as int, pan as int, zoom as int),
        -PAN_LIMIT - 10 * COORD_LIMIT <= r <= PAN_LIMIT + 10 * COORD_LIMIT,
{
    proof {
        assert(-8 * COORD_LIMIT * 1000 <= g * zoom <= 8 * COORD_LIMIT * 1000) by (nonlinear_arith)
            requires
                -2 * COORD_LIMIT <= g <= 2 * COORD_LIMIT,
                MIN_ZOOM <= zoom <= MAX_ZOOM,
        ;
    }
    let scaled = floor_div(g * zoom, ZOOM_ONE);
    proof {
        let p = (g * zoom) as int;
        assert(-9 * COORD_LIMIT <= scaled <= 9 * COORD_LIMIT) by (nonlinear_arith)
            requires
                1000 * scaled <= p < 1000 * (scaled + 1),
                -8 * COORD_LIMIT * 1000 <= p <= 8 * COORD_LIMIT * 1000,
        ;
    }
    origin + pan + scaled
}

/// The graph-space point under a screen point.
pub fn screen_to_graph(s: Vec2i, origin: Vec2i, pan: Vec2i, zoom: i64) -> (r: Vec2i)
    requires
        s.in_bounds(),
        origin.in_bounds(),
        pan.pan_bounded(),
        MIN_ZOOM <= zoom <= MAX_ZOOM,
    ensures
        r.x == screen_to_graph_axis_spec(s.x as int, origin.x as int, pan.x as int, zoom as int),
        r.y == screen_to_graph_axis_spec(s.y as int, origin.y as int, pan.y as int, zoom as int),
        -GRAPH_POINT_LIMIT <= r.x <= GRAPH_POINT_LIMIT,
        -GRAPH_POINT_LIMIT <= r.y <= GRAPH_POINT_LIMIT,
{
    Vec2i {
        x: screen_to_graph_axis(s.x, origin.x, pan.x, zoom),
        y: screen_to_graph_axis(s.y, origin.y, pan.y, zoom),
    }
}

/// The screen point of a graph-space point.
pub fn graph_to_screen(g: Vec2i, origin: Vec2i, pan: Vec2i, zoom: i64) -> (r: Vec2i)
    requires
        -2 * COORD_LIMIT <= g.x <= 2 * COORD_LIMIT,
        -2 * COORD_LIMIT <= g.y <= 2 * COORD_LIMIT,
        origin.in_bounds(),
        pan.pan_bounded(),
        MIN_ZOOM <= zoom <= MAX_ZOOM,
    ensures
        r.x == graph_to_screen_axis_spec(g.x as int, origin.x as int, pan.x as int, zoom as int),
        r.y == graph_to_screen_axis_spec(g.y as int, origin.y as int, pan.y as int, zoom as int),
        r.in_geom(),
{
    let r = Vec2i {
        x: graph_to_screen_axis(g.x, origin.x, pan.x, zoom),
        y: graph_to_screen_axis(g.y, origin.y, pan.y, zoom),
    };
    r
}

/// Sending a screen point to graph space and back returns it exactly, up
/// to the zoom's worth of grid rounding: at most four thousandths of a
/// pixel low, never high.
pub proof fn lemma_screen_graph_screen_round_trip(s: int, origin: int, pan: int, zoom: int)
    requires
        MIN_ZOOM <= zoom <= MAX_ZOOM,
    ensures
        ({
            let g = screen_to_graph_axis_spec(s, origin, pan, zoom);
            let s2 = graph_to_screen_axis_spec(g, origin, pan, zoom);
            s - 4 <= s2 <= s
        }),
{
    let d = s - origin - pan;
    let g = (d * ZOOM_ONE) / zoom;
    vstd::arithmetic::div_mod::lemma_fundamental_div_mod(d * ZOOM_ONE, zoom as int);
    let r1 = (d * ZOOM_ONE) % zoom;
    vstd::arithmetic::div_mod::lemma_mod_bound(d * ZOOM_ONE, zoom as int);
    assert(g * zoom == d * 1000 - r1) by (nonlinear_arith)
        requires
            d * 1000 == zoom * g + r1,
    ;
    vstd::arithmetic::div_mod::lemma_hoist_over_denominator(-r1, d, 1000nat);
    assert((g * zoom) / 1000 == d + (-r1) / 1000);
    assert(-4 <= (-r1) / 1000 <= 0) by (nonlinear_arith)
        requires
            0 <= r1 < 4000,
            1000 * ((-r1) / 1000) <= -r1 < 1000 * ((-r1) / 1000 + 1),
    ;
    vstd::arithmetic::div_mod::lemma_fundamental_div_mod(-r1, 1000);
    vstd::arithmetic::div_mod::lemma_mod_bound(-r1, 1000);
}

/// A zoom factor forced into the permitted range.
pub open spec fn clamp_zoom_spec(z: int) -> int {
    if z < MIN_ZOOM {
        MIN_ZOOM as int
    } else if z > MAX_ZOOM {
        MAX_ZOOM as int
    } else {
        z
    }
}

/// A pan coordinate saturated at the representable bound.
pub open spec fn clamp_pan_spec(p: int) -> int {
    if p < -PAN_LIMIT {
        -PAN_LIMIT as int
    } else if p > PAN_LIMIT {
        PAN_LIMIT as int
    } else {
        p
    }
}

/// Saturate a pan coordinate at the representable bound.
pub fn clamp_pan(p: i64) -> (r: i64)
    ensures
        r == clamp_pan_spec(p as int),
{
    if p < -PAN_LIMIT {
        -PAN_LIMIT
    } else if p > PAN_LIMIT {
        PAN_LIMIT
    } else {
        p
    }
}

/// Shift the camera by a raw pointer delta, saturating at the pan bound.
pub fn apply_pan(graph: &mut crate::model::Graph, delta: Vec2i)
    requires
        delta.in_bounds(),
        old(graph).pan.pan_bounded(),
    ensures
        final(graph).pan.x == clamp_pan_spec(old(graph).pan.x + delta.x),
        final(graph).pan.y == clamp_pan_spec(old(graph).pan.y + delta.y),
        final(graph).pan.pan_bounded(),
        *final(graph) == (crate::model::Graph { pan: final(graph).pan, ..*old(graph) }),
{
    let pan = graph.pan;
    graph.pan = Vec2i { x: clamp_pan(pan.x + delta.x), y: clamp_pan(pan.y + delta.y) };
}

/// Largest multiplicative zoom delta a single tick may apply, in
/// thousandths.
pub const ZOOM_DELTA_LIMIT: i64 = 1_000_000_000;

/// Apply a multiplicative zoom delta (in thousandths; `ZOOM_ONE` means no
/// change) anchored at the cursor: the zoom is clamped to its range, and
/// when it actually changes, the pan is re-solved so that the graph-space
/// point under the cursor stays under it (saturating at the pan bound).
pub fn apply_zoom_to_cursor(
    graph: &mut crate::model::Graph,
    cursor: Vec2i,
    origin: Vec2i,
    zoom_delta: i64,
)
    requires
        cursor.in_bounds(),
        origin.in_bounds(),
        old(graph).pan.pan_bounded(),
        MIN_ZOOM <= old(graph).zoom <= MAX_ZOOM,
        0 <= zoom_delta <= ZOOM_DELTA_LIMIT,
    ensures
        final(graph).nodes == old(graph).nodes,
        final(graph).id == old(graph).id,
        final(graph).selected_node_id == old(graph).selected_node_id,
        MIN_ZOOM <= final(graph).zoom <= MAX_ZOOM,
        final(graph).pan.pan_bounded(),
        ({
            let target = clamp_zoom_spec((old(graph).zoom * zoom_delta) / (ZOOM_ONE as int));
            if zoom_delta == ZOOM_ONE || target == old(graph).zoom {
                *final(graph) == *old(graph)
            } else {
                let gx = screen_to_graph_axis_spec(
                    cursor.x as int,
                    origin.x as int,
                    old(graph).pan.x as int,
                    old(graph).zoom as int,
                );
                let gy = screen_to_graph_axis_spec(
                    cursor.y as int,
                    origin.y as int,
                    old(graph).pan.y as int,
                    old(graph).zoom as int,
                );
                &&& final(graph).zoom == target
                &&& final(graph).pan.x == clamp_pan_spec(
                    anchored_pan_axis_spec(cursor.x as int, origin.x as int, gx, target),
                )
                &&& final(graph).pan.y == clamp_pan_spec(
                    anchored_pan_axis_spec(cursor.y as int, origin.y as int, gy, target),
                )
            }
        }),
{
    if zoom_delta == ZOOM_ONE {
        return ;
    }
    let zoom_now = graph.zoom;
    proof {
        assert(0 <= zoom_now * zoom_delta <= 4_000_000_000_000) by (nonlinear_arith)
            requires
                MIN_ZOOM <= zoom_now <= MAX_ZOOM,
                0 <= zoom_delta <= ZOOM_DELTA_LIMIT,
        ;
    }
    let scaled_zoom = floor_div(zoom_now * zoom_delta, ZOOM_ONE);
    let target: i64 = if scaled_zoom < MIN_ZOOM {
        MIN_ZOOM
    } else if scaled_zoom > MAX_ZOOM {
        MAX_ZOOM
    } else {
        scaled_zoom
    };
    if target == graph.zoom {
        return ;
    }
    let g = screen_to_graph(cursor, origin, graph.pan, graph.zoom);
    proof {
        assert(-4_200_000_000_000_000_000 <= g.x * target <= 4_200_000_000_000_000_000
            && -4_200_000_000_000_000_000 <= g.y * target <= 4_200_000_000_000_000_000)
            by (nonlinear_arith)
            requires
                -GRAPH_POINT_LIMIT <= g.x <= GRAPH_POINT_LIMIT,
                -GRAPH_POINT_LIMIT <= g.y <= GRAPH_POINT_LIMIT,
                MIN_ZOOM <= target <= MAX_ZOOM,
        ;
    }
    let sx = floor_div(g.x * target, ZOOM_ONE);
    let sy = floor_div(g.y * target, ZOOM_ONE);
    proof {
        assert(-4_200_000_000_000_000 - 1 <= sx <= 4_200_000_000_000_000) by (nonlinear_arith)
            requires
                1000 * sx <= g.x * target < 1000 * (sx + 1),
                -4_200_000_000_000_000_000 <= g.x * target <= 4_200_000_000_000_000_000,
        ;
        assert(-4_200_000_000_000_000 - 1 <= sy <= 4_200_000_000_000_000) by (nonlinear_arith)
            requires
                1000 * sy <= g.y * target < 1000 * (sy + 1),
                -4_200_000_000_000_000_000 <= g.y * target <= 4_200_000_000_000_000_000,
        ;
    }
    graph.zoom = target;
    graph.pan = Vec2i {
        x: clamp_pan(cursor.x - origin.x - sx),
        y: clamp_pan(cursor.y - origin.y - sy),
    };
}

/// A screen-space pointer delta converted to the graph-space step a
/// dragged node takes: each axis is scaled by the inverse zoom exactly,
/// rounding down to the grid.
pub fn drag_delta_to_graph(delta: Vec2i, zoom: i64) -> (r: Vec2i)
    requires
        delta.in_bounds(),
        MIN_ZOOM <= zoom <= MAX_ZOOM,
    ensures
        r.x == (delta.x * (ZOOM_ONE as int)) / (zoom as int),
        r.y == (delta.y * (ZOOM_ONE as int)) / (zoom as int),
        -5 * COORD_LIMIT <= r.x <= 5 * COORD_LIMIT,
        -5 * COORD_LIMIT <= r.y <= 5 * COORD_LIMIT,
{
    let rx = floor_div(delta.x * ZOOM_ONE, zoom);
    let ry = floor_div(delta.y * ZOOM_ONE, zoom);
    proof {
        assert(-5 * COORD_LIMIT <= rx <= 5 * COORD_LIMIT) by (nonlinear_arith)
            requires
                zoom * rx <= delta.x * 1000 < zoom * (rx + 1),
                -COORD_LIMIT * 1000 <= delta.x * 1000 <= COORD_LIMIT * 1000,
                MIN_ZOOM <= zoom <= MAX_ZOOM,
        ;
        assert(-5 * COORD_LIMIT <= ry <= 5 * COORD_LIMIT) by (nonlinear_arith)
            requires
                zoom * ry <= delta.y * 1000 < zoom * (ry + 1),
                -COORD_LIMIT * 1000 <= delta.y * 1000 <= COORD_LIMIT * 1000,
                MIN_ZOOM <= zoom <= MAX_ZOOM,
        ;
    }
    Vec2i { x: rx, y: ry }
}

/// The pan that keeps the graph point `g` under the screen point `c`
/// after the zoom changes.
pub open spec fn anchored_pan_axis_spec(c: int, origin: int, g: int, new_zoom: int) -> int {
    c - origin - (g * new_zoom) / (ZOOM_ONE as int)
}

/// Zoom-to-cursor anchoring: after re-solving the pan for the new zoom,
/// the graph-space point under the cursor is the one that was there
/// before, up to at most five thousandths of a pixel of grid rounding.
pub proof fn lemma_zoom_anchor(c: int, origin: int, pan: int, zoom: int, new_zoom: int)
    requires
        MIN_ZOOM <= zoom <= MAX_ZOOM,
        MIN_ZOOM <= new_zoom <= MAX_ZOOM,
    ensures
        ({
            let g = screen_to_graph_axis_spec(c, origin, pan, zoom);
            let new_pan = anchored_pan_axis_spec(c, origin, g, new_zoom);
            let g2 = screen_to_graph_axis_spec(c, origin, new_pan, new_zoom);
            g - 5 <= g2 <= g
        }),
{
    let g = screen_to_graph_axis_spec(c, origin, pan, zoom);
    let q = (g * new_zoom) / (ZOOM_ONE as int);
    vstd::arithmetic::div_mod::lemma_fundamental_div_mod(g * new_zoom, 1000);
    vstd::arithmetic::div_mod::lemma_mod_bound(g * new_zoom, 1000);
    let r2 = (g * new_zoom) % 1000;
    let new_pan = anchored_pan_axis_spec(c, origin, g, new_zoom);
    assert(c - origin - new_pan == q);
    let g2 = screen_to_graph_axis_spec(c, origin, new_pan, new_zoom);
    assert(g2 == (q * 1000) / new_zoom);
    assert(q * 1000 == g * new_zoom - r2) by (nonlinear_arith)
        requires
            g * new_zoom == 1000 * q + r2,
    ;
    vstd::arithmetic::div_mod::lemma_hoist_over_denominator(-r2, g, new_zoom as nat);
    assert((-r2) / new_zoom + g == (-r2 + g * new_zoom) / new_zoom);
    assert(g2 == g + (-r2) / new_zoom);
    vstd::arithmetic::div_mod::lemma_fundamental_div_mod(-r2, new_zoom as int);
    vstd::arithmetic::div_mod::lemma_mod_bound(-r2, new_zoom as int);
    assert(-5 <= (-r2) / new_zoom <= 0) by (nonlinear_arith)
        requires
            0 <= r2 < 1000,
            MIN_ZOOM <= new_zoom <= MAX_ZOOM,
            new_zoom * ((-r2) / new_zoom) + ((-r2) % new_zoom) == -r2,
            0 <= (-r2) % new_zoom < new_zoom,
    ;
}

} // verus!
