//! Connection geometry: the cubic curve drawn for each connection, its
//! sampled polyline, the intersection test against the freehand cut path,
//! and the removal of the connections the cut hits.

use vstd::prelude::*;

use crate::geom::dist;
use crate::geom::dist_sq_spec;
use crate::geom::floor_div;
use crate::geom::isqrt_spec;
use crate::geom::segments_intersect;
use crate::geom::segments_intersect_spec;
use crate::geom::Vec2i;
use crate::geom::GEOM_LIMIT;
use crate::model::Connection;
use crate::model::Graph;
use crate::model::NodeId;

verus! {

/// How many segments a connection curve is sampled into for hit testing.
pub const CURVE_SAMPLE_STEPS: usize = 24;

/// The longest freehand cut path, in fixed-point units (nine hundred
/// pixels).
pub const MAX_BREAKER_LENGTH: i64 = 900_000;

/// Names the connection stored on input `input_index` of the node
/// carrying `target_node_id`.
#[derive(Clone, Copy, PartialEq, Eq, Structural, Debug)]
pub struct ConnectionKey {
    pub target_node_id: NodeId,
    pub input_index: usize,
}

/// One connection's rendered curve: its endpoints on screen and the
/// horizontal pull of its control points.
#[derive(Clone, Copy, PartialEq, Eq, Structural, Debug)]
pub struct ConnectionCurve {
    pub key: ConnectionKey,
    pub start: Vec2i,
    pub end: Vec2i,
    pub control_offset: i64,
}

impl ConnectionCurve {
    /// Endpoints and control offset small enough that the four control
    /// points stay within the derived-geometry bound.
    pub open spec fn wf(self) -> bool {
        &&& -GEOM_LIMIT / 2 <= self.start.x <= GEOM_LIMIT / 2
        &&& -GEOM_LIMIT / 2 <= self.start.y <= GEOM_LIMIT / 2
        &&& -GEOM_LIMIT / 2 <= self.end.x <= GEOM_LIMIT / 2
        &&& -GEOM_LIMIT / 2 <= self.end.y <= GEOM_LIMIT / 2
        &&& 0 <= self.control_offset <= GEOM_LIMIT / 2
    }

    /// The first control point: the start pulled right.
    pub open spec fn control1(self) -> Vec2i {
        Vec2i { x: (self.start.x + self.control_offset) as i64, y: self.start.y }
    }

    /// The second control point: the end pulled left.
    pub open spec fn control2(self) -> Vec2i {
        Vec2i { x: (self.end.x - self.control_offset) as i64, y: self.end.y }
    }
}

/// One coordinate of the cubic at sample `i` of `steps`: the Bernstein
/// weights at `t = i / steps`, scaled to integers by `steps^3`, applied
/// to the four control coordinates and rounded down to the grid.
pub open spec fn bezier_coord_spec(q0: int, q1: int, q2: int, q3: int, steps: int, i: int) -> int {
    let u = steps - i;
    let num = u * u * u * q0 + 3 * u * u * i * q1 + 3 * u * i * i * q2 + i * i * i * q3;
    num / (steps * steps * steps)
}

/// Sample `i` of the curve's polyline.
pub open spec fn curve_sample_spec(c: ConnectionCurve, i: int) -> Vec2i {
    Vec2i {
        x: bezier_coord_spec(
            c.start.x as int,
            c.control1().x as int,
            c.control2().x as int,
            c.end.x as int,
            CURVE_SAMPLE_STEPS as int,
            i,
        ) as i64,
        y: bezier_coord_spec(
            c.start.y as int,
            c.control1().y as int,
            c.control2().y as int,
            c.end.y as int,
            CURVE_SAMPLE_STEPS as int,
            i,
        ) as i64,
    }
}

/// The Bernstein weights at any sample are non-negative and sum to
/// the cube of the step count, so the weighted coordinate stays within
/// the control coordinates' range.
proof fn lemma_bezier_coord_bounds(q0: int, q1: int, q2: int, q3: int, i: int, g: int)
    requires
        0 <= i <= 24,
        0 < g,
        -g <= q0 <= g,
        -g <= q1 <= g,
        -g <= q2 <= g,
        -g <= q3 <= g,
    ensures
        -g - 1 <= bezier_coord_spec(q0, q1, q2, q3, 24, i) <= g,
{
    let u = 24 - i;
    let a = u * u * u;
    let b = 3 * u * u * i;
    let cc = 3 * u * i * i;
    let d = i * i * i;
    assert(0 <= a && 0 <= b && 0 <= cc && 0 <= d && a + b + cc + d == 13824) by (nonlinear_arith)
        requires
            0 <= i <= 24,
            u == 24 - i,
            a == u * u * u,
            b == 3 * u * u * i,
            cc == 3 * u * i * i,
            d == i * i * i,
    ;
    lemma_weighted_sum_bound(a, b, cc, d, q0, q1, q2, q3, g);
    let num = a * q0 + b * q1 + cc * q2 + d * q3;
    vstd::arithmetic::div_mod::lemma_fundamental_div_mod(num, 13824);
    vstd::arithmetic::div_mod::lemma_mod_bound(num, 13824);
    let q = num / 13824;
    assert(-g - 1 <= q <= g) by (nonlinear_arith)
        requires
            num == 13824 * q + num % 13824,
            0 <= num % 13824 < 13824,
            -(13824 * g) <= num <= 13824 * g,
            0 < g,
    ;
    assert(bezier_coord_spec(q0, q1, q2, q3, 24, i) == q);
}

/// Non-negative weights summing to the Bernstein total keep every term
/// and every partial sum of the weighted coordinates within the total's
/// worth of the coordinate bound.
proof fn lemma_weighted_sum_bound(
    a: int,
    b: int,
    cc: int,
    d: int,
    q0: int,
    q1: int,
    q2: int,
    q3: int,
    g: int,
)
    requires
        0 <= a,
        0 <= b,
        0 <= cc,
        0 <= d,
        a + b + cc + d == 13824,
        -g <= q0 <= g,
        -g <= q1 <= g,
        -g <= q2 <= g,
        -g <= q3 <= g,
        0 < g,
    ensures
        -(13824 * g) <= a * q0 <= 13824 * g,
        -(13824 * g) <= b * q1 <= 13824 * g,
        -(13824 * g) <= cc * q2 <= 13824 * g,
        -(13824 * g) <= d * q3 <= 13824 * g,
        -(13824 * g) <= a * q0 + b * q1 <= 13824 * g,
        -(13824 * g) <= a * q0 + b * q1 + cc * q2 <= 13824 * g,
        -(13824 * g) <= a * q0 + b * q1 + cc * q2 + d * q3 <= 13824 * g,
{
    assert(-(a * g) <= a * q0 <= a * g) by (nonlinear_arith)
        requires
            0 <= a,
            -g <= q0 <= g,
    ;
    assert(-(b * g) <= b * q1 <= b * g) by (nonlinear_arith)
        requires
            0 <= b,
            -g <= q1 <= g,
    ;
    assert(-(cc * g) <= cc * q2 <= cc * g) by (nonlinear_arith)
        requires
            0 <= cc,
            -g <= q2 <= g,
    ;
    assert(-(d * g) <= d * q3 <= d * g) by (nonlinear_arith)
        requires
            0 <= d,
            -g <= q3 <= g,
    ;
    assert(0 <= a * g && 0 <= b * g && 0 <= cc * g && 0 <= d * g && a * g + b * g + cc * g + d * g
        == 13824 * g) by (nonlinear_arith)
        requires
            0 <= a,
            0 <= b,
            0 <= cc,
            0 <= d,
            a + b + cc + d == 13824,
            0 < g,
    ;
}

/// Sample a connection curve into its hit-testing polyline: twenty-five
/// points, every one within the derived-geometry bound.
#[verifier::loop_isolation(false)]
pub fn sample_curve(c: &ConnectionCurve) -> (r: Vec<Vec2i>)
    requires
        c.wf(),
    ensures
        r@.len() == CURVE_SAMPLE_STEPS + 1,
        forall|i: int| 0 <= i <= CURVE_SAMPLE_STEPS ==> #[trigger] r@[i] == curve_sample_spec(*c, i),
        forall|i: int| 0 <= i <= CURVE_SAMPLE_STEPS ==> (#[trigger] r@[i]).in_geom(),
{
    let q0x = c.start.x;
    let q1x = c.start.x + c.control_offset;
    let q2x = c.end.x - c.control_offset;
    let q3x = c.end.x;
    let q0y = c.start.y;
    let q1y = c.start.y;
    let q2y = c.end.y;
    let q3y = c.end.y;
    let steps: i64 = 24;
    let s3: i64 = 13824;
    let mut out: Vec<Vec2i> = Vec::new();
    let mut i: i64 = 0;
    while i <= steps
        invariant
            0 <= i <= steps + 1,
            out@.len() == i,
            forall|k: int| 0 <= k < i ==> #[trigger] out@[k] == curve_sample_spec(*c, k),
            forall|k: int| 0 <= k < i ==> (#[trigger] out@[k]).in_geom(),
        decreases steps - i + 1,
    {
        let u: i64 = steps - i;
        proof {
            lemma_bezier_coord_bounds(
                q0x as int,
                q1x as int,
                q2x as int,
                q3x as int,
                i as int,
                GEOM_LIMIT as int,
            );
            lemma_bezier_coord_bounds(
                q0y as int,
                q1y as int,
                q2y as int,
                q3y as int,
                i as int,
                GEOM_LIMIT as int,
            );
            assert(0 <= u * u <= 576 && 0 <= u * u * u <= 13824 && 0 <= 3 * u <= 72 && 0 <= 3 * u
                * u <= 1728 && 0 <= 3 * u * u * i <= 41472 && 0 <= 3 * u * i <= 1728 && 0 <= 3 * u
                * i * i <= 41472 && 0 <= i * i <= 576 && 0 <= i * i * i <= 13824 && u * u * u + 3
                * u * u * i + 3 * u * i * i + i * i * i == 13824) by (nonlinear_arith)
                requires
                    0 <= i <= 24,
                    u == 24 - i,
            ;
        }
        let a: i64 = u * u * u;
        let b: i64 = 3 * u * u * i;
        let cc: i64 = 3 * u * i * i;
        let d: i64 = i * i * i;
        proof {
            let g = GEOM_LIMIT as int;
            lemma_weighted_sum_bound(
                a as int,
                b as int,
                cc as int,
                d as int,
                q0x as int,
                q1x as int,
                q2x as int,
                q3x as int,
                g,
            );
            lemma_weighted_sum_bound(
                a as int,
                b as int,
                cc as int,
                d as int,
                q0y as int,
                q1y as int,
                q2y as int,
                q3y as int,
                g,
            );
            assert(13824 * g < 0x7000_0000_0000_0000);
        }
        let numx: i64 = a * q0x + b * q1x + cc * q2x + d * q3x;
        let numy: i64 = a * q0y + b * q1y + cc * q2y + d * q3y;
        let x = floor_div(numx, s3);
        let y = floor_div(numy, s3);
        out.push(Vec2i { x, y });
        i = i + 1;
    }
    out
}

/// Some segment of the first polyline crosses some segment of the second.
pub open spec fn polylines_cross(a: Seq<Vec2i>, b: Seq<Vec2i>) -> bool {
    exists|i: int, j: int|
        0 <= i < a.len() - 1 && 0 <= j < b.len() - 1 && #[trigger] segments_intersect_spec(
            a[i],
            a[i + 1],
            b[j],
            b[j + 1],
        )
}

/// Test a cut path against a sampled curve polyline, segment pair by
/// segment pair.
#[verifier::loop_isolation(false)]
pub fn polyline_hit(breaker: &Vec<Vec2i>, samples: &Vec<Vec2i>) -> (r: bool)
    requires
        forall|i: int| 0 <= i < breaker@.len() ==> (#[trigger] breaker@[i]).in_geom(),
        forall|i: int| 0 <= i < samples@.len() ==> (#[trigger] samples@[i]).in_geom(),
    ensures
        r == polylines_cross(breaker@, samples@),
{
    let bn = breaker.len();
    let sn = samples.len();
    if bn < 2 || sn < 2 {
        return false;
    }
    let mut i: usize = 0;
    while i < bn - 1
        invariant
            i <= bn - 1,
            forall|a: int, b: int|
                0 <= a < i && 0 <= b < sn - 1 ==> !#[trigger] segments_intersect_spec(
                    breaker@[a],
                    breaker@[a + 1],
                    samples@[b],
                    samples@[b + 1],
                ),
        decreases bn - 1 - i,
    {
        let mut j: usize = 0;
        while j < sn - 1
            invariant
                i < bn - 1,
                j <= sn - 1,
                forall|b: int|
                    0 <= b < j ==> !segments_intersect_spec(
                        breaker@[i as int],
                        breaker@[i as int + 1],
                        #[trigger] samples@[b],
                        samples@[b + 1],
                    ),
            decreases sn - 1 - j,
        {
            if segments_intersect(breaker[i], breaker[i + 1], samples[j], samples[j + 1]) {
                return true;
            }
            j = j + 1;
        }
        i = i + 1;
    }
    false
}

/// The cut path crosses this curve's sampled polyline.
pub open spec fn curve_hit_spec(c: ConnectionCurve, breaker: Seq<Vec2i>) -> bool {
    polylines_cross(breaker, Seq::new((CURVE_SAMPLE_STEPS + 1) as nat, |i: int| curve_sample_spec(c, i)))
}

/// `key` names some curve in the list that the cut path crosses.
pub open spec fn names_hit_curve(
    curves: Seq<ConnectionCurve>,
    breaker: Seq<Vec2i>,
    key: ConnectionKey,
) -> bool {
    exists|k: int|
        0 <= k < curves.len() && (#[trigger] curves[k]).key == key && curve_hit_spec(
            curves[k],
            breaker,
        )
}

/// The keys of every curve the cut path crosses. Every returned key names
/// a crossed curve, and every crossed curve's key is returned.
#[verifier::loop_isolation(false)]
pub fn connection_hits(curves: &Vec<ConnectionCurve>, breaker: &Vec<Vec2i>) -> (r: Vec<
    ConnectionKey,
>)
    requires
        forall|i: int| 0 <= i < curves@.len() ==> (#[trigger] curves@[i]).wf(),
        forall|i: int| 0 <= i < breaker@.len() ==> (#[trigger] breaker@[i]).in_geom(),
    ensures
        forall|j: int| 0 <= j < r@.len() ==> names_hit_curve(curves@, breaker@, #[trigger] r@[j]),
        forall|k: int|
            0 <= k < curves@.len() && curve_hit_spec(#[trigger] curves@[k], breaker@)
                ==> r@.contains(curves@[k].key),
{
    let n = curves.len();
    let mut hits: Vec<ConnectionKey> = Vec::new();
    let mut k: usize = 0;
    while k < n
        invariant
            k <= n,
            forall|j: int|
                0 <= j < hits@.len() ==> names_hit_curve(curves@, breaker@, #[trigger] hits@[j]),
            forall|m: int|
                0 <= m < k && curve_hit_spec(#[trigger] curves@[m], breaker@) ==> hits@.contains(
                    curves@[m].key,
                ),
        decreases n - k,
    {
        let samples = sample_curve(&curves[k]);
        proof {
            assert(samples@ =~= Seq::new(
                (CURVE_SAMPLE_STEPS + 1) as nat,
                |i: int| curve_sample_spec(curves@[k as int], i),
            ));
        }
        let ghost old_hits = hits@;
        if polyline_hit(breaker, &samples) {
            hits.push(curves[k].key);
            proof {
                assert(hits@ == old_hits.push(curves@[k as int].key));
                assert(curve_hit_spec(curves@[k as int], breaker@));
                assert(names_hit_curve(curves@, breaker@, curves@[k as int].key)) by {
                    assert(0 <= k < curves@.len() && curves@[k as int].key == curves@[k as int].key
                        && curve_hit_spec(curves@[k as int], breaker@));
                }
                assert forall|j: int| 0 <= j < hits@.len() implies names_hit_curve(
                    curves@,
                    breaker@,
                    #[trigger] hits@[j],
                ) by {
                    if j < old_hits.len() {
                        assert(hits@[j] == old_hits[j]);
                    } else {
                        assert(hits@[j] == curves@[k as int].key);
                    }
                }
                assert forall|m: int|
                    0 <= m < k + 1 && curve_hit_spec(#[trigger] curves@[m], breaker@) implies hits@
                    .contains(curves@[m].key) by {
                    if m < k {
                        assert(old_hits.contains(curves@[m].key));
                        let w = choose|w: int| 0 <= w < old_hits.len() && old_hits[w] == curves@[m].key;
                        assert(hits@[w] == curves@[m].key);
                    } else {
                        assert(hits@[hits@.len() - 1] == curves@[m].key);
                    }
                }
            }
        }
        k = k + 1;
    }
    hits
}

/// The curve the frame draws for the connection on input `j` of node `i`:
/// from the source node's output-port center to the input's center, with
/// the standard control pull.
pub open spec fn curve_for(
    graph: Graph,
    origin: Vec2i,
    layout: crate::layout::NodeLayout,
    zoom: int,
    widths: Seq<i64>,
    i: int,
    j: int,
) -> ConnectionCurve {
    let node = graph.nodes@[i];
    let c = node.inputs@[j].connection->Some_0;
    let k = graph.node_index_spec(c.node_id);
    let src = graph.nodes@[k];
    let start = Vec2i {
        x: (origin.x + (src.pos.x * zoom) / 1000 + widths[k]) as i64,
        y: (origin.y + (src.pos.y * zoom) / 1000 + crate::layout::port_row_center_spec(
            layout,
            c.output_index as int,
        )) as i64,
    };
    let end = Vec2i {
        x: (origin.x + (node.pos.x * zoom) / 1000) as i64,
        y: (origin.y + (node.pos.y * zoom) / 1000 + crate::layout::port_row_center_spec(
            layout,
            j,
        )) as i64,
    };
    ConnectionCurve {
        key: ConnectionKey { target_node_id: node.id, input_index: j as usize },
        start,
        end,
        control_offset: crate::layout::bezier_control_offset_spec(
            start.x as int,
            end.x as int,
            zoom,
        ) as i64,
    }
}

/// `cv` is the curve of some stored connection of the graph.
pub open spec fn is_curve_of(
    graph: Graph,
    origin: Vec2i,
    layout: crate::layout::NodeLayout,
    zoom: int,
    widths: Seq<i64>,
    cv: ConnectionCurve,
) -> bool {
    exists|i: int, j: int|
        0 <= i < graph.nodes@.len() && 0 <= j < graph.nodes@[i].inputs@.len()
            && graph.nodes@[i].inputs@[j].connection is Some && cv == #[trigger] curve_for(
            graph,
            origin,
            layout,
            zoom,
            widths,
            i,
            j,
        )
}

/// Every node of a graph whose connections are valid and whose
/// identifiers are unique resolves a stored connection at the chosen
/// index, with the output index in range there.
proof fn lemma_connection_resolves(g: Graph, c: Connection)
    requires
        g.ids_unique(),
        g.connection_valid(c),
    ensures
        g.has_node(c.node_id),
        ({
            let k = g.node_index_spec(c.node_id);
            0 <= k < g.nodes@.len() && g.nodes@[k].id == c.node_id && (c.output_index as int)
                < g.nodes@[k].outputs@.len()
        }),
{
    let w = choose|i: int|
        0 <= i < g.nodes@.len() && #[trigger] g.nodes@[i].id == c.node_id && c.output_index
            < g.nodes@[i].outputs@.len();
    assert(g.nodes@[w].id == c.node_id);
    let k = g.node_index_spec(c.node_id);
    assert(0 <= k < g.nodes@.len() && g.nodes@[k].id == c.node_id);
    if k != w {
        if k < w {
            assert(g.nodes@[k].id != g.nodes@[w].id);
        } else {
            assert(g.nodes@[w].id != g.nodes@[k].id);
        }
    }
}

/// `key` names a connection that the collection pass has already
/// emitted: one of a node before `i`, or one of node `i` at an input
/// index before `j`.
pub open spec fn key_emitted_before(g: Graph, i: int, j: int, key: ConnectionKey) -> bool {
    ||| exists|a: int| 0 <= a < i && #[trigger] g.nodes@[a].id == key.target_node_id
    ||| (0 <= i < g.nodes@.len() && key.target_node_id == g.nodes@[i].id && (
    key.input_index as int) < j)
}

/// A key emitted before position `(i, j)` differs from the key of input
/// `j` of node `i` when identifiers are unique.
proof fn lemma_emitted_key_differs(g: Graph, i: int, j: int, key: ConnectionKey)
    requires
        g.ids_unique(),
        0 <= i < g.nodes@.len(),
        0 <= j <= usize::MAX,
        key_emitted_before(g, i, j, key),
    ensures
        key != (ConnectionKey { target_node_id: g.nodes@[i].id, input_index: j as usize }),
{
    if exists|a: int| 0 <= a < i && #[trigger] g.nodes@[a].id == key.target_node_id {
        let a = choose|a: int| 0 <= a < i && #[trigger] g.nodes@[a].id == key.target_node_id;
        assert(g.nodes@[a].id != g.nodes@[i].id);
    }
}

/// A key emitted before `(i, j1)` is also emitted before any later
/// input position of the same node.
proof fn lemma_emitted_monotone(g: Graph, i: int, j1: int, j2: int, key: ConnectionKey)
    requires
        key_emitted_before(g, i, j1, key),
        j1 <= j2,
    ensures
        key_emitted_before(g, i, j2, key),
{
}

/// A key emitted while processing node `i` is emitted before node `i + 1`.
proof fn lemma_emitted_next_node(g: Graph, i: int, j: int, key: ConnectionKey)
    requires
        key_emitted_before(g, i, j, key),
        0 <= i < g.nodes@.len(),
    ensures
        key_emitted_before(g, i + 1, 0, key),
{
    if !(exists|a: int| 0 <= a < i && #[trigger] g.nodes@[a].id == key.target_node_id) {
        assert(g.nodes@[i].id == key.target_node_id);
    }
}

/// Build the curve of every stored connection, in node-and-input order:
/// each returned curve is the curve of a stored connection, every stored
/// connection's curve is returned exactly once (the keys are pairwise
/// distinct), and each is fit for sampling.
#[verifier::loop_isolation(false)]
pub fn collect_connection_curves(
    graph: &Graph,
    origin: Vec2i,
    layout: &crate::layout::NodeLayout,
    zoom: i64,
    widths: &Vec<i64>,
) -> (r: Vec<ConnectionCurve>)
    requires
        graph.ids_unique(),
        graph.connections_valid(),
        graph.geometry_bounded(),
        origin.origin_bounded(),
        layout.wf(),
        crate::geom::MIN_ZOOM <= zoom <= crate::geom::MAX_ZOOM,
        widths@.len() == graph.nodes@.len(),
        forall|k: int|
            0 <= k < graph.nodes@.len() ==> 200 <= #[trigger] widths@[k]
                <= crate::layout::NODE_WIDTH_LIMIT,
        forall|k: int|
            0 <= k < graph.nodes@.len() ==> crate::model::ports_bounded(
                #[trigger] graph.nodes@[k],
            ),
    ensures
        forall|t: int|
            0 <= t < r@.len() ==> is_curve_of(
                *graph,
                origin,
                *layout,
                zoom as int,
                widths@,
                #[trigger] r@[t],
            ),
        forall|i: int, j: int|
            0 <= i < graph.nodes@.len() && 0 <= j < graph.nodes@[i].inputs@.len()
                && graph.nodes@[i].inputs@[j].connection is Some ==> r@.contains(
                #[trigger] curve_for(*graph, origin, *layout, zoom as int, widths@, i, j),
            ),
        forall|t: int| 0 <= t < r@.len() ==> (#[trigger] r@[t]).wf(),
        forall|t1: int, t2: int|
            0 <= t1 < t2 < r@.len() ==> (#[trigger] r@[t1]).key != (#[trigger] r@[t2]).key,
{
    let n = graph.nodes.len();
    let mut curves: Vec<ConnectionCurve> = Vec::new();
    let mut i: usize = 0;
    while i < n
        invariant
            i <= n,
            forall|t: int|
                0 <= t < curves@.len() ==> is_curve_of(
                    *graph,
                    origin,
                    *layout,
                    zoom as int,
                    widths@,
                    #[trigger] curves@[t],
                ),
            forall|a: int, b: int|
                0 <= a < i && 0 <= b < graph.nodes@[a].inputs@.len()
                    && graph.nodes@[a].inputs@[b].connection is Some ==> curves@.contains(
                    #[trigger] curve_for(*graph, origin, *layout, zoom as int, widths@, a, b),
                ),
            forall|t: int| 0 <= t < curves@.len() ==> (#[trigger] curves@[t]).wf(),
            forall|t: int|
                0 <= t < curves@.len() ==> key_emitted_before(
                    *graph,
                    i as int,
                    0,
                    (#[trigger] curves@[t]).key,
                ),
            forall|t1: int, t2: int|
                0 <= t1 < t2 < curves@.len() ==> (#[trigger] curves@[t1]).key != (
                #[trigger] curves@[t2]).key,
        decreases n - i,
    {
        let m = graph.nodes[i].inputs.len();
        let mut j: usize = 0;
        while j < m
            invariant
                i < n,
                j <= m,
                m == graph.nodes@[i as int].inputs@.len(),
                forall|t: int|
                    0 <= t < curves@.len() ==> is_curve_of(
                        *graph,
                        origin,
                        *layout,
                        zoom as int,
                        widths@,
                        #[trigger] curves@[t],
                    ),
                forall|a: int, b: int|
                    0 <= a < i && 0 <= b < graph.nodes@[a].inputs@.len()
                        && graph.nodes@[a].inputs@[b].connection is Some ==> curves@.contains(
                        #[trigger] curve_for(*graph, origin, *layout, zoom as int, widths@, a, b),
                    ),
                forall|b: int|
                    0 <= b < j && graph.nodes@[i as int].inputs@[b].connection is Some
                        ==> curves@.contains(
                        #[trigger] curve_for(
                            *graph,
                            origin,
                            *layout,
                            zoom as int,
                            widths@,
                            i as int,
                            b,
                        ),
                    ),
                forall|t: int| 0 <= t < curves@.len() ==> (#[trigger] curves@[t]).wf(),
                forall|t: int|
                    0 <= t < curves@.len() ==> key_emitted_before(
                        *graph,
                        i as int,
                        j as int,
                        (#[trigger] curves@[t]).key,
                    ),
                forall|t1: int, t2: int|
                    0 <= t1 < t2 < curves@.len() ==> (#[trigger] curves@[t1]).key != (
                    #[trigger] curves@[t2]).key,
            decreases m - j,
        {
            let conn: Option<Connection> = graph.nodes[i].inputs[j].connection;
            match conn {
                Some(c) => {
                    proof {
                        assert(graph.connection_valid(
                            graph.nodes@[i as int].inputs@[j as int].connection->Some_0,
                        ));
                        lemma_connection_resolves(*graph, c);
                    }
                    let k = match graph.node_index(c.node_id) {
                        Some(k) => k,
                        None => {
                            proof {
                                assert(false);
                            }
                            0
                        },
                    };
                    proof {
                        let w = graph.node_index_spec(c.node_id);
                        if w != k as int {
                            if w < k as int {
                                assert(graph.nodes@[w].id != graph.nodes@[k as int].id);
                            } else {
                                assert(graph.nodes@[k as int].id != graph.nodes@[w].id);
                            }
                        }
                    }
                    let start = crate::layout::node_output_pos(
                        origin,
                        &graph.nodes[k],
                        c.output_index,
                        layout,
                        zoom,
                        widths[k],
                    );
                    let end = crate::layout::node_input_pos(
                        origin,
                        &graph.nodes[i],
                        j,
                        layout,
                        zoom,
                    );
                    let control_offset = crate::layout::bezier_control_offset(start, end, zoom);
                    let cv = ConnectionCurve {
                        key: ConnectionKey { target_node_id: graph.nodes[i].id, input_index: j },
                        start,
                        end,
                        control_offset,
                    };
                    let ghost old_curves = curves@;
                    curves.push(cv);
                    proof {
                        assert(cv == curve_for(
                            *graph,
                            origin,
                            *layout,
                            zoom as int,
                            widths@,
                            i as int,
                            j as int,
                        ));
                        assert(is_curve_of(*graph, origin, *layout, zoom as int, widths@, cv)) by {
                            assert(0 <= (i as int) < graph.nodes@.len() && 0 <= (j as int)
                                < graph.nodes@[i as int].inputs@.len()
                                && graph.nodes@[i as int].inputs@[j as int].connection is Some && cv
                                == curve_for(
                                *graph,
                                origin,
                                *layout,
                                zoom as int,
                                widths@,
                                i as int,
                                j as int,
                            ));
                        }
                        assert(crate::layout::SCREEN_LIMIT < GEOM_LIMIT / 2);
                        assert(cv.wf());
                        assert forall|a: int, b: int|
                            0 <= a < i && 0 <= b < graph.nodes@[a].inputs@.len()
                                && graph.nodes@[a].inputs@[b].connection is Some implies curves@
                            .contains(
                            #[trigger] curve_for(
                                *graph,
                                origin,
                                *layout,
                                zoom as int,
                                widths@,
                                a,
                                b,
                            ),
                        ) by {
                            let target = curve_for(
                                *graph,
                                origin,
                                *layout,
                                zoom as int,
                                widths@,
                                a,
                                b,
                            );
                            assert(old_curves.contains(target));
                            let t = choose|t: int|
                                0 <= t < old_curves.len() && old_curves[t] == target;
                            assert(curves@[t] == target);
                        }
                        assert forall|b: int|
                            0 <= b < j + 1 && graph.nodes@[i as int].inputs@[b].connection
                                is Some implies curves@.contains(
                            #[trigger] curve_for(
                                *graph,
                                origin,
                                *layout,
                                zoom as int,
                                widths@,
                                i as int,
                                b,
                            ),
                        ) by {
                            if b < j {
                                let target = curve_for(
                                    *graph,
                                    origin,
                                    *layout,
                                    zoom as int,
                                    widths@,
                                    i as int,
                                    b,
                                );
                                assert(old_curves.contains(target));
                                let t = choose|t: int|
                                    0 <= t < old_curves.len() && old_curves[t] == target;
                                assert(curves@[t] == target);
                            } else {
                                assert(curves@[curves@.len() - 1] == cv);
                            }
                        }
                        assert forall|t: int|
                            0 <= t < curves@.len() implies key_emitted_before(
                            *graph,
                            i as int,
                            j as int + 1,
                            (#[trigger] curves@[t]).key,
                        ) by {
                            if t < old_curves.len() {
                                assert(curves@[t] == old_curves[t]);
                                lemma_emitted_monotone(
                                    *graph,
                                    i as int,
                                    j as int,
                                    j as int + 1,
                                    curves@[t].key,
                                );
                            } else {
                                assert(curves@[t] == cv);
                                assert(cv.key.target_node_id == graph.nodes@[i as int].id
                                    && (cv.key.input_index as int) < j as int + 1);
                            }
                        }
                        assert forall|t1: int, t2: int|
                            0 <= t1 < t2 < curves@.len() implies (#[trigger] curves@[t1]).key != (
                        #[trigger] curves@[t2]).key by {
                            if t2 < old_curves.len() {
                                assert(curves@[t1] == old_curves[t1]);
                                assert(curves@[t2] == old_curves[t2]);
                            } else {
                                assert(curves@[t2] == cv);
                                assert(curves@[t1] == old_curves[t1]);
                                assert(key_emitted_before(
                                    *graph,
                                    i as int,
                                    j as int,
                                    curves@[t1].key,
                                ));
                                lemma_emitted_key_differs(
                                    *graph,
                                    i as int,
                                    j as int,
                                    curves@[t1].key,
                                );
                            }
                        }
                    }
                },
                None => {
                    proof {
                        assert forall|t: int|
                            0 <= t < curves@.len() implies key_emitted_before(
                            *graph,
                            i as int,
                            j as int + 1,
                            (#[trigger] curves@[t]).key,
                        ) by {
                            lemma_emitted_monotone(
                                *graph,
                                i as int,
                                j as int,
                                j as int + 1,
                                curves@[t].key,
                            );
                        }
                    }
                },
            }
            j = j + 1;
        }
        proof {
            assert forall|t: int|
                0 <= t < curves@.len() implies key_emitted_before(
                *graph,
                i as int + 1,
                0,
                (#[trigger] curves@[t]).key,
            ) by {
                lemma_emitted_next_node(*graph, i as int, m as int, curves@[t].key);
            }
        }
        i = i + 1;
    }
    curves
}

/// Clear every input connection named by one of the keys; everything else
/// in the graph is untouched. Afterwards an input holds a connection
/// exactly where it held one before and its key was not in the list.
#[verifier::loop_isolation(false)]
pub fn remove_connections(graph: &mut Graph, keys: &Vec<ConnectionKey>)
    ensures
        final(graph).id == old(graph).id,
        final(graph).pan == old(graph).pan,
        final(graph).zoom == old(graph).zoom,
        final(graph).selected_node_id == old(graph).selected_node_id,
        final(graph).nodes@.len() == old(graph).nodes@.len(),
        forall|i: int, j: int|
            0 <= i < old(graph).nodes@.len() && 0 <= j < old(graph).nodes@[i].inputs@.len()
                ==> (#[trigger] final(graph).nodes@[i].inputs@[j]).connection == (if keys@.contains(
                ConnectionKey { target_node_id: old(graph).nodes@[i].id, input_index: j as usize },
            ) {
                None
            } else {
                old(graph).nodes@[i].inputs@[j].connection
            }),
        forall|i: int|
            0 <= i < old(graph).nodes@.len() ==> {
                let a = old(graph).nodes@[i];
                let b = #[trigger] final(graph).nodes@[i];
                b.id == a.id && b.name == a.name && b.pos == a.pos && b.outputs == a.outputs
                    && b.cache_output == a.cache_output && b.has_cached_output
                    == a.has_cached_output && b.terminal == a.terminal && b.inputs@.len()
                    == a.inputs@.len() && forall|j: int|
                    0 <= j < a.inputs@.len() ==> (#[trigger] b.inputs@[j]).name == a.inputs@[j].name
            },
{
    let ghost orig = *graph;
    let n = graph.nodes.len();
    let mut i: usize = 0;
    while i < n
        invariant
            i <= n,
            graph.id == orig.id,
            graph.pan == orig.pan,
            graph.zoom == orig.zoom,
            graph.selected_node_id == orig.selected_node_id,
            graph.nodes@.len() == n,
            forall|a: int| i <= a < n ==> #[trigger] graph.nodes@[a] == orig.nodes@[a],
            forall|a: int|
                0 <= a < i ==> {
                    let x = orig.nodes@[a];
                    let y = #[trigger] graph.nodes@[a];
                    y.id == x.id && y.name == x.name && y.pos == x.pos && y.outputs == x.outputs
                        && y.cache_output == x.cache_output && y.has_cached_output
                        == x.has_cached_output && y.terminal == x.terminal && y.inputs@.len()
                        == x.inputs@.len()
                },
            forall|a: int, b: int|
                0 <= a < i && 0 <= b < orig.nodes@[a].inputs@.len() ==> (#[trigger] graph.nodes@[a].inputs@[b]).name
                    == orig.nodes@[a].inputs@[b].name && graph.nodes@[a].inputs@[b].connection == (
                if keys@.contains(
                    ConnectionKey { target_node_id: orig.nodes@[a].id, input_index: b as usize },
                ) {
                    None
                } else {
                    orig.nodes@[a].inputs@[b].connection
                }),
        decreases n - i,
    {
        let m = graph.nodes[i].inputs.len();
        let node_id = graph.nodes[i].id;
        let mut j: usize = 0;
        while j < m
            invariant
                i < n,
                j <= m,
                graph.id == orig.id,
                graph.pan == orig.pan,
                graph.zoom == orig.zoom,
                graph.selected_node_id == orig.selected_node_id,
                graph.nodes@.len() == n,
                node_id == orig.nodes@[i as int].id,
                m == orig.nodes@[i as int].inputs@.len(),
                forall|a: int| i < a < n ==> #[trigger] graph.nodes@[a] == orig.nodes@[a],
                forall|a: int|
                    0 <= a < i ==> {
                        let x = orig.nodes@[a];
                        let y = #[trigger] graph.nodes@[a];
                        y.id == x.id && y.name == x.name && y.pos == x.pos && y.outputs == x.outputs
                            && y.cache_output == x.cache_output && y.has_cached_output
                            == x.has_cached_output && y.terminal == x.terminal && y.inputs@.len()
                            == x.inputs@.len()
                    },
                forall|a: int, b: int|
                    0 <= a < i && 0 <= b < orig.nodes@[a].inputs@.len() ==> (#[trigger] graph.nodes@[a].inputs@[b]).name
                        == orig.nodes@[a].inputs@[b].name && graph.nodes@[a].inputs@[b].connection
                        == (if keys@.contains(
                        ConnectionKey { target_node_id: orig.nodes@[a].id, input_index: b as usize },
                    ) {
                        None
                    } else {
                        orig.nodes@[a].inputs@[b].connection
                    }),
                ({
                    let x = orig.nodes@[i as int];
                    let y = graph.nodes@[i as int];
                    y.id == x.id && y.name == x.name && y.pos == x.pos && y.outputs == x.outputs
                        && y.cache_output == x.cache_output && y.has_cached_output
                        == x.has_cached_output && y.terminal == x.terminal && y.inputs@.len()
                        == x.inputs@.len()
                }),
                forall|b: int|
                    j <= b < m ==> #[trigger] graph.nodes@[i as int].inputs@[b]
                        == orig.nodes@[i as int].inputs@[b],
                forall|b: int|
                    0 <= b < j ==> (#[trigger] graph.nodes@[i as int].inputs@[b]).name
                        == orig.nodes@[i as int].inputs@[b].name
                        && graph.nodes@[i as int].inputs@[b].connection == (if keys@.contains(
                        ConnectionKey { target_node_id: orig.nodes@[i as int].id, input_index: b as usize },
                    ) {
                        None
                    } else {
                        orig.nodes@[i as int].inputs@[b].connection
                    }),
            decreases m - j,
        {
            let key = ConnectionKey { target_node_id: node_id, input_index: j };
            if contains_key(keys, key) {
                graph.nodes[i].inputs[j].connection = None;
            }
            j = j + 1;
        }
        i = i + 1;
    }
}

/// Linear membership scan over a key list.
fn contains_key(keys: &Vec<ConnectionKey>, key: ConnectionKey) -> (r: bool)
    ensures
        r == keys@.contains(key),
{
    let n = keys.len();
    let mut i: usize = 0;
    while i < n
        invariant
            i <= n,
            n == keys@.len(),
            forall|k: int| 0 <= k < i ==> #[trigger] keys@[k] != key,
        decreases n - i,
    {
        if keys[i].target_node_id == key.target_node_id && keys[i].input_index == key.input_index {
            proof {
                assert(keys@[i as int] == key);
            }
            return true;
        }
        i = i + 1;
    }
    false
}

/// The summed length of a polyline, each segment rounded down to the
/// grid.
pub open spec fn path_length_spec(pts: Seq<Vec2i>) -> int
    decreases pts.len(),
{
    if pts.len() < 2 {
        0
    } else {
        path_length_spec(pts.drop_last()) + isqrt_spec(
            dist_sq_spec(pts[pts.len() - 2], pts[pts.len() - 1]),
        )
    }
}

/// The total length of the freehand cut path.
#[verifier::loop_isolation(false)]
pub fn breaker_path_length(points: &Vec<Vec2i>) -> (r: i64)
    requires
        forall|i: int| 0 <= i < points@.len() ==> (#[trigger] points@[i]).in_bounds(),
        points@.len() <= 1_000_000,
    ensures
        r == path_length_spec(points@),
        r >= 0,
{
    let n = points.len();
    if n < 2 {
        proof {
            assert(points@.subrange(0, n as int) =~= points@);
        }
        return 0;
    }
    let mut total: i64 = 0;
    let mut i: usize = 1;
    proof {
        assert(path_length_spec(points@.subrange(0, 1)) == 0);
    }
    while i < n
        invariant
            1 <= i <= n,
            total == path_length_spec(points@.subrange(0, i as int)),
            0 <= total <= (i - 1) * (4 * crate::geom::COORD_LIMIT),
        decreases n - i,
    {
        let d = dist(points[i - 1], points[i]);
        proof {
            let pre = points@.subrange(0, i as int + 1);
            assert(pre.drop_last() =~= points@.subrange(0, i as int));
            assert(pre[pre.len() - 2] == points@[i as int - 1]);
            assert(pre[pre.len() - 1] == points@[i as int]);
            assert((i - 1) * (4 * crate::geom::COORD_LIMIT) + 4 * crate::geom::COORD_LIMIT == i * (
            4 * crate::geom::COORD_LIMIT)) by (nonlinear_arith);
        }
        total = total + (d as i64);
        i = i + 1;
    }
    proof {
        assert(points@.subrange(0, n as int) =~= points@);
    }
    total
}

} // verus!
