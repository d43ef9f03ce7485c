//! The gesture engine: resolves each input tick into exactly one meaning
//! — panning, node dragging, port-to-port connecting, or freehand cutting
//! — and commits the resulting graph mutations.

use vstd::prelude::*;

use crate::curve::path_length_spec;
use crate::curve::MAX_BREAKER_LENGTH;
use crate::geom::dist;
use crate::geom::dist_sq_spec;
use crate::geom::floor_div;
use crate::geom::Recti;
use crate::geom::Vec2i;
use crate::geom::COORD_LIMIT;
use crate::geom::MAX_ZOOM;
use crate::geom::MIN_ZOOM;
use crate::geom::ZOOM_ONE;
use crate::layout::node_height_spec;
use crate::layout::port_row_center_spec;
use crate::model::ports_bounded;
use crate::layout::NodeLayout;
use crate::layout::NodeTextWidths;
use crate::layout::NODE_WIDTH_LIMIT;
use crate::layout::SCREEN_LIMIT;
use crate::model::Connection;
use crate::model::Graph;
use crate::model::NodeId;

verus! {

/// Which side of a node a port sits on.
#[derive(Clone, Copy, PartialEq, Eq, Structural, Debug)]
pub enum PortKind {
    Input,
    Output,
}

/// Names one port of one node.
#[derive(Clone, Copy, PartialEq, Eq, Structural, Debug)]
pub struct PortRef {
    pub node_id: NodeId,
    pub index: usize,
    pub kind: PortKind,
}

/// A port together with its screen center for this frame.
#[derive(Clone, Copy, PartialEq, Eq, Structural, Debug)]
pub struct PortInfo {
    pub port: PortRef,
    pub center: Vec2i,
}

/// The frame position of input port `idx` of node `i`.
pub open spec fn input_port_info(
    g: Graph,
    origin: Vec2i,
    layout: NodeLayout,
    zoom: int,
    i: int,
    idx: int,
) -> PortInfo {
    let node = g.nodes@[i];
    PortInfo {
        port: PortRef { node_id: node.id, index: idx as usize, kind: PortKind::Input },
        center: (Vec2i {
            x: (origin.x + (node.pos.x * zoom) / 1000) as i64,
            y: (origin.y + (node.pos.y * zoom) / 1000 + port_row_center_spec(layout, idx)) as i64,
        }),
    }
}

/// The frame position of output port `idx` of node `i`.
pub open spec fn output_port_info(
    g: Graph,
    origin: Vec2i,
    layout: NodeLayout,
    zoom: int,
    widths: Seq<i64>,
    i: int,
    idx: int,
) -> PortInfo {
    let node = g.nodes@[i];
    PortInfo {
        port: PortRef { node_id: node.id, index: idx as usize, kind: PortKind::Output },
        center: (Vec2i {
            x: (origin.x + (node.pos.x * zoom) / 1000 + widths[i]) as i64,
            y: (origin.y + (node.pos.y * zoom) / 1000 + port_row_center_spec(layout, idx)) as i64,
        }),
    }
}

/// `p` is a real port of the graph at its true frame center.
pub open spec fn is_port_of(
    g: Graph,
    origin: Vec2i,
    layout: NodeLayout,
    zoom: int,
    widths: Seq<i64>,
    p: PortInfo,
) -> bool {
    ||| exists|i: int, idx: int|
        0 <= i < g.nodes@.len() && 0 <= idx < g.nodes@[i].inputs@.len() && p
            == #[trigger] input_port_info(g, origin, layout, zoom, i, idx)
    ||| exists|i: int, idx: int|
        0 <= i < g.nodes@.len() && 0 <= idx < g.nodes@[i].outputs@.len() && p
            == #[trigger] output_port_info(g, origin, layout, zoom, widths, i, idx)
}

/// The port activation radius at a zoom level: the visual port radius
/// widened by three fifths, and at least ten pixels.
pub open spec fn frame_activation_spec(zoom: int) -> int {
    crate::geom::imax(
        ((crate::geom::imin(crate::geom::imax((5_500 * zoom) / 1000, 3_000), 7_500)) * 1600) / 1000,
        10_000,
    )
}

/// The node widths a frame at zoom `zoom` computes from the measured
/// text widths, one per node.
pub open spec fn frame_widths_spec(g: Graph, m: Seq<NodeTextWidths>, zoom: int) -> Seq<i64> {
    Seq::new(
        g.nodes@.len(),
        |i: int|
            crate::layout::node_width_spec(
                m[i],
                crate::layout::frame_layout_spec(zoom),
                crate::style::style_spec(
                    zoom,
                    crate::style::Rgba { r: 40, g: 40, b: 48, a: 255 },
                    crate::style::StrokeStyle {
                        width: 1000,
                        color: (crate::style::Rgba { r: 90, g: 90, b: 110, a: 255 }),
                    },
                    crate::style::Rgba { r: 110, g: 170, b: 255, a: 255 },
                ),
                crate::layout::row_count_spec(g.nodes@[i]),
            ) as i64,
    )
}

/// Some port of the graph lies within `radius` of the point `p`.
pub open spec fn some_port_within(
    g: Graph,
    origin: Vec2i,
    layout: NodeLayout,
    zoom: int,
    widths: Seq<i64>,
    p: Vec2i,
    radius: int,
) -> bool {
    exists|pi: PortInfo|
        #[trigger] is_port_of(g, origin, layout, zoom, widths, pi) && dist_sq_spec(pi.center, p)
            <= radius * radius
}

/// The number of ports (inputs plus outputs) of the first `n` nodes.
pub open spec fn port_count_spec(g: Graph, n: int) -> int
    decreases n,
{
    if n <= 0 {
        0
    } else {
        port_count_spec(g, n - 1) + g.nodes@[n - 1].inputs@.len() + g.nodes@[n - 1].outputs@.len()
    }
}

/// `p` names a port the collection pass has already emitted: one of a
/// node before `i`, an input of node `i` before `ji`, or an output of
/// node `i` before `jo`.
pub open spec fn port_emitted_before(g: Graph, i: int, ji: int, jo: int, p: PortRef) -> bool {
    ||| exists|a: int| 0 <= a < i && #[trigger] g.nodes@[a].id == p.node_id
    ||| (0 <= i < g.nodes@.len() && p.node_id == g.nodes@[i].id && p.kind == PortKind::Input && (
    p.index as int) < ji)
    ||| (0 <= i < g.nodes@.len() && p.node_id == g.nodes@[i].id && p.kind == PortKind::Output && (
    p.index as int) < jo)
}

/// A port emitted before `(i, ji, jo)` differs from input `ji` and from
/// output `jo` of node `i` when identifiers are unique.
proof fn lemma_emitted_port_differs(g: Graph, i: int, ji: int, jo: int, p: PortRef)
    requires
        g.ids_unique(),
        0 <= i < g.nodes@.len(),
        0 <= ji <= usize::MAX,
        0 <= jo <= usize::MAX,
        port_emitted_before(g, i, ji, jo, p),
    ensures
        p != (PortRef {
            node_id: g.nodes@[i].id,
            index: ji as usize,
            kind: PortKind::Input,
        }),
        p != (PortRef {
            node_id: g.nodes@[i].id,
            index: jo as usize,
            kind: PortKind::Output,
        }),
{
    if exists|a: int| 0 <= a < i && #[trigger] g.nodes@[a].id == p.node_id {
        let a = choose|a: int| 0 <= a < i && #[trigger] g.nodes@[a].id == p.node_id;
        assert(g.nodes@[a].id != g.nodes@[i].id);
    }
}

/// A port emitted before `(i, j1, k1)` is also emitted before any later
/// position of the same node.
proof fn lemma_port_emitted_monotone(g: Graph, i: int, j1: int, k1: int, j2: int, k2: int, p: PortRef)
    requires
        port_emitted_before(g, i, j1, k1, p),
        j1 <= j2,
        k1 <= k2,
    ensures
        port_emitted_before(g, i, j2, k2, p),
{
}

/// A port emitted while processing node `i` is emitted before node `i + 1`.
proof fn lemma_port_emitted_next_node(g: Graph, i: int, ji: int, jo: int, p: PortRef)
    requires
        port_emitted_before(g, i, ji, jo, p),
        0 <= i < g.nodes@.len(),
    ensures
        port_emitted_before(g, i + 1, 0, 0, p),
{
    if !(exists|a: int| 0 <= a < i && #[trigger] g.nodes@[a].id == p.node_id) {
        assert(g.nodes@[i].id == p.node_id);
    }
}

/// Gather every port's frame center, in node order, inputs before
/// outputs: each entry is a real port at its true center, every port of
/// the graph appears, and no port appears twice (the list holds exactly
/// one entry per port).
#[verifier::loop_isolation(false)]
pub fn collect_ports(
    graph: &Graph,
    origin: Vec2i,
    layout: &NodeLayout,
    zoom: i64,
    widths: &Vec<i64>,
) -> (r: Vec<PortInfo>)
    requires
        graph.ids_unique(),
        graph.geometry_bounded(),
        origin.origin_bounded(),
        layout.wf(),
        MIN_ZOOM <= zoom <= MAX_ZOOM,
        widths@.len() == graph.nodes@.len(),
        forall|k: int|
            0 <= k < graph.nodes@.len() ==> 200 <= #[trigger] widths@[k] <= NODE_WIDTH_LIMIT,
        forall|k: int|
            0 <= k < graph.nodes@.len() ==> ports_bounded(#[trigger] graph.nodes@[k]),
    ensures
        r@.len() == port_count_spec(*graph, graph.nodes@.len() as int),
        forall|t1: int, t2: int|
            0 <= t1 < t2 < r@.len() ==> (#[trigger] r@[t1]).port != (#[trigger] r@[t2]).port,
        forall|t: int|
            0 <= t < r@.len() ==> is_port_of(
                *graph,
                origin,
                *layout,
                zoom as int,
                widths@,
                #[trigger] r@[t],
            ),
        forall|i: int, idx: int|
            0 <= i < graph.nodes@.len() && 0 <= idx < graph.nodes@[i].inputs@.len() ==> r@.contains(
                #[trigger] input_port_info(*graph, origin, *layout, zoom as int, i, idx),
            ),
        forall|i: int, idx: int|
            0 <= i < graph.nodes@.len() && 0 <= idx < graph.nodes@[i].outputs@.len()
                ==> r@.contains(
                #[trigger] output_port_info(*graph, origin, *layout, zoom as int, widths@, i, idx),
            ),
        forall|t: int|
            0 <= t < r@.len() ==> -SCREEN_LIMIT <= (#[trigger] r@[t]).center.x <= SCREEN_LIMIT
                && -SCREEN_LIMIT <= r@[t].center.y <= SCREEN_LIMIT,
{
    let n = graph.nodes.len();
    let mut ports: Vec<PortInfo> = Vec::new();
    let mut i: usize = 0;
    while i < n
        invariant
            i <= n,
            forall|t: int|
                0 <= t < ports@.len() ==> is_port_of(
                    *graph,
                    origin,
                    *layout,
                    zoom as int,
                    widths@,
                    #[trigger] ports@[t],
                ),
            forall|a: int, idx: int|
                0 <= a < i && 0 <= idx < graph.nodes@[a].inputs@.len() ==> ports@.contains(
                    #[trigger] input_port_info(*graph, origin, *layout, zoom as int, a, idx),
                ),
            forall|a: int, idx: int|
                0 <= a < i && 0 <= idx < graph.nodes@[a].outputs@.len() ==> ports@.contains(
                    #[trigger] output_port_info(
                        *graph,
                        origin,
                        *layout,
                        zoom as int,
                        widths@,
                        a,
                        idx,
                    ),
                ),
            forall|t: int|
                0 <= t < ports@.len() ==> -SCREEN_LIMIT <= (#[trigger] ports@[t]).center.x
                    <= SCREEN_LIMIT && -SCREEN_LIMIT <= ports@[t].center.y <= SCREEN_LIMIT,
            ports@.len() == port_count_spec(*graph, i as int),
            forall|t: int|
                0 <= t < ports@.len() ==> port_emitted_before(
                    *graph,
                    i as int,
                    0,
                    0,
                    (#[trigger] ports@[t]).port,
                ),
            forall|t1: int, t2: int|
                0 <= t1 < t2 < ports@.len() ==> (#[trigger] ports@[t1]).port != (
                #[trigger] ports@[t2]).port,
        decreases n - i,
    {
        let in_count = graph.nodes[i].inputs.len();
        let mut idx: usize = 0;
        while idx < in_count
            invariant
                i < n,
                idx <= in_count,
                in_count == graph.nodes@[i as int].inputs@.len(),
                forall|t: int|
                    0 <= t < ports@.len() ==> is_port_of(
                        *graph,
                        origin,
                        *layout,
                        zoom as int,
                        widths@,
                        #[trigger] ports@[t],
                    ),
                forall|a: int, b: int|
                    0 <= a < i && 0 <= b < graph.nodes@[a].inputs@.len() ==> ports@.contains(
                        #[trigger] input_port_info(*graph, origin, *layout, zoom as int, a, b),
                    ),
                forall|a: int, b: int|
                    0 <= a < i && 0 <= b < graph.nodes@[a].outputs@.len() ==> ports@.contains(
                        #[trigger] output_port_info(
                            *graph,
                            origin,
                            *layout,
                            zoom as int,
                            widths@,
                            a,
                            b,
                        ),
                    ),
                forall|b: int|
                    0 <= b < idx ==> ports@.contains(
                        #[trigger] input_port_info(*graph, origin, *layout, zoom as int, i as int, b),
                    ),
                forall|t: int|
                    0 <= t < ports@.len() ==> -SCREEN_LIMIT <= (#[trigger] ports@[t]).center.x
                        <= SCREEN_LIMIT && -SCREEN_LIMIT <= ports@[t].center.y <= SCREEN_LIMIT,
                ports@.len() == port_count_spec(*graph, i as int) + idx,
                forall|t: int|
                    0 <= t < ports@.len() ==> port_emitted_before(
                        *graph,
                        i as int,
                        idx as int,
                        0,
                        (#[trigger] ports@[t]).port,
                    ),
                forall|t1: int, t2: int|
                    0 <= t1 < t2 < ports@.len() ==> (#[trigger] ports@[t1]).port != (
                    #[trigger] ports@[t2]).port,
            decreases in_count - idx,
        {
            let center = crate::layout::node_input_pos(origin, &graph.nodes[i], idx, layout, zoom);
            let info = PortInfo {
                port: PortRef { node_id: graph.nodes[i].id, index: idx, kind: PortKind::Input },
                center,
            };
            let ghost old_ports = ports@;
            ports.push(info);
            proof {
                assert(info == input_port_info(
                    *graph,
                    origin,
                    *layout,
                    zoom as int,
                    i as int,
                    idx as int,
                ));
                lemma_push_keeps_contains_ports(old_ports, ports@, info);
                assert forall|t: int|
                    0 <= t < ports@.len() implies port_emitted_before(
                    *graph,
                    i as int,
                    idx as int + 1,
                    0,
                    (#[trigger] ports@[t]).port,
                ) by {
                    if t < old_ports.len() {
                        assert(ports@[t] == old_ports[t]);
                        lemma_port_emitted_monotone(
                            *graph,
                            i as int,
                            idx as int,
                            0,
                            idx as int + 1,
                            0,
                            ports@[t].port,
                        );
                    } else {
                        assert(ports@[t] == info);
                    }
                }
                assert forall|t1: int, t2: int|
                    0 <= t1 < t2 < ports@.len() implies (#[trigger] ports@[t1]).port != (
                #[trigger] ports@[t2]).port by {
                    if t2 < old_ports.len() {
                        assert(ports@[t1] == old_ports[t1]);
                        assert(ports@[t2] == old_ports[t2]);
                    } else {
                        assert(ports@[t2] == info);
                        assert(ports@[t1] == old_ports[t1]);
                        assert(port_emitted_before(
                            *graph,
                            i as int,
                            idx as int,
                            0,
                            ports@[t1].port,
                        ));
                        lemma_emitted_port_differs(
                            *graph,
                            i as int,
                            idx as int,
                            0,
                            ports@[t1].port,
                        );
                    }
                }
            }
            idx = idx + 1;
        }
        let out_count = graph.nodes[i].outputs.len();
        let mut idx: usize = 0;
        while idx < out_count
            invariant
                i < n,
                idx <= out_count,
                out_count == graph.nodes@[i as int].outputs@.len(),
                in_count == graph.nodes@[i as int].inputs@.len(),
                forall|t: int|
                    0 <= t < ports@.len() ==> is_port_of(
                        *graph,
                        origin,
                        *layout,
                        zoom as int,
                        widths@,
                        #[trigger] ports@[t],
                    ),
                forall|a: int, b: int|
                    0 <= a < i && 0 <= b < graph.nodes@[a].inputs@.len() ==> ports@.contains(
                        #[trigger] input_port_info(*graph, origin, *layout, zoom as int, a, b),
                    ),
                forall|a: int, b: int|
                    0 <= a < i && 0 <= b < graph.nodes@[a].outputs@.len() ==> ports@.contains(
                        #[trigger] output_port_info(
                            *graph,
                            origin,
                            *layout,
                            zoom as int,
                            widths@,
                            a,
                            b,
                        ),
                    ),
                forall|b: int|
                    0 <= b < graph.nodes@[i as int].inputs@.len() ==> ports@.contains(
                        #[trigger] input_port_info(*graph, origin, *layout, zoom as int, i as int, b),
                    ),
                forall|b: int|
                    0 <= b < idx ==> ports@.contains(
                        #[trigger] output_port_info(
                            *graph,
                            origin,
                            *layout,
                            zoom as int,
                            widths@,
                            i as int,
                            b,
                        ),
                    ),
                forall|t: int|
                    0 <= t < ports@.len() ==> -SCREEN_LIMIT <= (#[trigger] ports@[t]).center.x
                        <= SCREEN_LIMIT && -SCREEN_LIMIT <= ports@[t].center.y <= SCREEN_LIMIT,
                ports@.len() == port_count_spec(*graph, i as int) + in_count + idx,
                forall|t: int|
                    0 <= t < ports@.len() ==> port_emitted_before(
                        *graph,
                        i as int,
                        in_count as int,
                        idx as int,
                        (#[trigger] ports@[t]).port,
                    ),
                forall|t1: int, t2: int|
                    0 <= t1 < t2 < ports@.len() ==> (#[trigger] ports@[t1]).port != (
                    #[trigger] ports@[t2]).port,
            decreases out_count - idx,
        {
            let center = crate::layout::node_output_pos(
                origin,
                &graph.nodes[i],
                idx,
                layout,
                zoom,
                widths[i],
            );
            let info = PortInfo {
                port: PortRef { node_id: graph.nodes[i].id, index: idx, kind: PortKind::Output },
                center,
            };
            let ghost old_ports = ports@;
            ports.push(info);
            proof {
                assert(info == output_port_info(
                    *graph,
                    origin,
                    *layout,
                    zoom as int,
                    widths@,
                    i as int,
                    idx as int,
                ));
                lemma_push_keeps_contains_ports(old_ports, ports@, info);
                assert forall|t: int|
                    0 <= t < ports@.len() implies port_emitted_before(
                    *graph,
                    i as int,
                    in_count as int,
                    idx as int + 1,
                    (#[trigger] ports@[t]).port,
                ) by {
                    if t < old_ports.len() {
                        assert(ports@[t] == old_ports[t]);
                        lemma_port_emitted_monotone(
                            *graph,
                            i as int,
                            in_count as int,
                            idx as int,
                            in_count as int,
                            idx as int + 1,
                            ports@[t].port,
                        );
                    } else {
                        assert(ports@[t] == info);
                    }
                }
                assert forall|t1: int, t2: int|
                    0 <= t1 < t2 < ports@.len() implies (#[trigger] ports@[t1]).port != (
                #[trigger] ports@[t2]).port by {
                    if t2 < old_ports.len() {
                        assert(ports@[t1] == old_ports[t1]);
                        assert(ports@[t2] == old_ports[t2]);
                    } else {
                        assert(ports@[t2] == info);
                        assert(ports@[t1] == old_ports[t1]);
                        assert(port_emitted_before(
                            *graph,
                            i as int,
                            in_count as int,
                            idx as int,
                            ports@[t1].port,
                        ));
                        lemma_emitted_port_differs(
                            *graph,
                            i as int,
                            in_count as int,
                            idx as int,
                            ports@[t1].port,
                        );
                    }
                }
            }
            idx = idx + 1;
        }
        proof {
            assert forall|t: int|
                0 <= t < ports@.len() implies port_emitted_before(
                *graph,
                i as int + 1,
                0,
                0,
                (#[trigger] ports@[t]).port,
            ) by {
                lemma_port_emitted_next_node(
                    *graph,
                    i as int,
                    in_count as int,
                    out_count as int,
                    ports@[t].port,
                );
            }
            assert(port_count_spec(*graph, i as int + 1) == port_count_spec(*graph, i as int)
                + in_count + out_count);
        }
        i = i + 1;
    }
    ports
}

/// Pushing onto a sequence keeps everything it contained, and it contains
/// the new element.
proof fn lemma_push_keeps_contains_ports(a: Seq<PortInfo>, b: Seq<PortInfo>, x: PortInfo)
    requires
        b == a.push(x),
    ensures
        forall|p: PortInfo| a.contains(p) ==> b.contains(p),
        b.contains(x),
{
    assert forall|p: PortInfo| a.contains(p) implies b.contains(p) by {
        let t = choose|t: int| 0 <= t < a.len() && a[t] == p;
        assert(b[t] == p);
    }
    assert(b[b.len() - 1] == x);
}

/// The port nearest the pointer, if any lies within the activation
/// radius; the scan keeps the last port at the smallest distance, so the
/// result's distance is minimal over all ports.
#[verifier::loop_isolation(false)]
pub fn find_port_near(ports: &Vec<PortInfo>, pos: Vec2i, radius: i64) -> (r: Option<PortInfo>)
    requires
        pos.in_bounds(),
        0 < radius <= 1_000_000,
        forall|t: int|
            0 <= t < ports@.len() ==> -SCREEN_LIMIT <= (#[trigger] ports@[t]).center.x
                <= SCREEN_LIMIT && -SCREEN_LIMIT <= ports@[t].center.y <= SCREEN_LIMIT,
    ensures
        match r {
            Some(p) => ports@.contains(p) && dist_sq_spec(p.center, pos) <= radius * radius
                && forall|t: int|
                0 <= t < ports@.len() ==> dist_sq_spec((#[trigger] ports@[t]).center, pos)
                    >= dist_sq_spec(p.center, pos),
            None => forall|t: int|
                0 <= t < ports@.len() ==> dist_sq_spec((#[trigger] ports@[t]).center, pos) > radius
                    * radius,
        },
{
    let n = ports.len();
    proof {
        assert((radius as int) * (radius as int) <= 1_000_000_000_000) by (nonlinear_arith)
            requires
                0 < radius <= 1_000_000,
        ;
    }
    let radius_sq: u128 = (radius as u128) * (radius as u128);
    let mut best: Option<PortInfo> = None;
    let mut best_sq: u128 = radius_sq;
    let mut t: usize = 0;
    while t < n
        invariant
            t <= n,
            radius_sq == radius * radius,
            match best {
                Some(p) => ports@.contains(p) && best_sq == dist_sq_spec(p.center, pos) && best_sq
                    <= radius_sq && forall|s: int|
                    0 <= s < t ==> dist_sq_spec((#[trigger] ports@[s]).center, pos) >= best_sq,
                None => best_sq == radius_sq && forall|s: int|
                    0 <= s < t ==> dist_sq_spec((#[trigger] ports@[s]).center, pos) > radius_sq,
            },
        decreases n - t,
    {
        let d = crate::geom::dist_sq_wide(ports[t].center, pos);
        if d <= best_sq {
            proof {
                assert(ports@.contains(ports@[t as int]));
            }
            best = Some(ports[t]);
            best_sq = d;
        }
        t = t + 1;
    }
    best
}

/// The frame rectangle of node `i`.
pub open spec fn node_rect_spec(
    g: Graph,
    origin: Vec2i,
    layout: NodeLayout,
    zoom: int,
    widths: Seq<i64>,
    i: int,
) -> Recti {
    let node = g.nodes@[i];
    let min = Vec2i {
        x: (origin.x + (node.pos.x * zoom) / 1000) as i64,
        y: (origin.y + (node.pos.y * zoom) / 1000) as i64,
    };
    Recti {
        min,
        max: (Vec2i {
            x: (min.x + widths[i]) as i64,
            y: (min.y + node_height_spec(node, layout)) as i64,
        }),
    }
}

/// The topmost node under the pointer: the last node in draw order whose
/// frame rectangle contains it.
#[verifier::loop_isolation(false)]
pub fn node_under_pointer(
    graph: &Graph,
    origin: Vec2i,
    layout: &NodeLayout,
    zoom: i64,
    widths: &Vec<i64>,
    pos: Vec2i,
) -> (r: Option<usize>)
    requires
        graph.geometry_bounded(),
        origin.origin_bounded(),
        layout.wf(),
        MIN_ZOOM <= zoom <= MAX_ZOOM,
        widths@.len() == graph.nodes@.len(),
        forall|k: int|
            0 <= k < graph.nodes@.len() ==> 200 <= #[trigger] widths@[k] <= NODE_WIDTH_LIMIT,
        forall|k: int|
            0 <= k < graph.nodes@.len() ==> ports_bounded(#[trigger] graph.nodes@[k]),
    ensures
        match r {
            Some(k) => k < graph.nodes@.len() && node_rect_spec(
                *graph,
                origin,
                *layout,
                zoom as int,
                widths@,
                k as int,
            ).contains_spec(pos) && forall|j: int|
                k < j < graph.nodes@.len() ==> !#[trigger] node_rect_spec(
                    *graph,
                    origin,
                    *layout,
                    zoom as int,
                    widths@,
                    j,
                ).contains_spec(pos),
            None => forall|j: int|
                0 <= j < graph.nodes@.len() ==> !#[trigger] node_rect_spec(
                    *graph,
                    origin,
                    *layout,
                    zoom as int,
                    widths@,
                    j,
                ).contains_spec(pos),
        },
{
    let n = graph.nodes.len();
    let mut i: usize = n;
    while i > 0
        invariant
            i <= n,
            forall|j: int|
                i <= j < n ==> !#[trigger] node_rect_spec(
                    *graph,
                    origin,
                    *layout,
                    zoom as int,
                    widths@,
                    j,
                ).contains_spec(pos),
        decreases i,
    {
        i = i - 1;
        let rect = crate::layout::node_rect_for_graph(
            origin,
            &graph.nodes[i],
            zoom,
            layout,
            widths[i],
        );
        proof {
            assert(rect == node_rect_spec(*graph, origin, *layout, zoom as int, widths@, i as int));
        }
        if rect.contains(pos) {
            return Some(i);
        }
    }
    None
}

/// The cursor lies within the activation radius of a port center.
pub fn port_in_activation_range_wide(cursor: Vec2i, center: Vec2i, radius: i64) -> (r: bool)
    requires
        -SCREEN_LIMIT <= cursor.x <= SCREEN_LIMIT,
        -SCREEN_LIMIT <= cursor.y <= SCREEN_LIMIT,
        -SCREEN_LIMIT <= center.x <= SCREEN_LIMIT,
        -SCREEN_LIMIT <= center.y <= SCREEN_LIMIT,
        0 < radius <= 1_000_000,
    ensures
        r == (dist_sq_spec(cursor, center) <= radius * radius),
{
    let d = crate::geom::dist_sq_wide(cursor, center);
    proof {
        assert((radius as int) * (radius as int) <= 1_000_000_000_000) by (nonlinear_arith)
            requires
                0 < radius <= 1_000_000,
        ;
    }
    let rsq: u128 = (radius as u128) * (radius as u128);
    d <= rsq
}

/// The output-side reference of a port pair.
pub open spec fn output_of(start: PortRef, end: PortRef) -> PortRef {
    if start.kind == PortKind::Output {
        start
    } else {
        end
    }
}

/// The input-side reference of a port pair.
pub open spec fn input_of(start: PortRef, end: PortRef) -> PortRef {
    if start.kind == PortKind::Output {
        end
    } else {
        start
    }
}

/// The pair may be connected: opposite kinds, both nodes exist, and both
/// indices are in range at their nodes.
pub open spec fn connection_permitted(a: Graph, start: PortRef, end: PortRef) -> bool {
    let output = output_of(start, end);
    let input = input_of(start, end);
    &&& start.kind != end.kind
    &&& a.has_node(output.node_id)
    &&& a.has_node(input.node_id)
    &&& (output.index as int) < a.nodes@[a.node_index_spec(output.node_id)].outputs@.len()
    &&& (input.index as int) < a.nodes@[a.node_index_spec(input.node_id)].inputs@.len()
}

/// `b` is `a` with exactly the pair's connection written: the input-side
/// port now references the output side, and nothing else changed.
pub open spec fn connection_committed(a: Graph, b: Graph, start: PortRef, end: PortRef) -> bool {
    let output = output_of(start, end);
    let input = input_of(start, end);
    let k = a.node_index_spec(input.node_id);
    &&& b.id == a.id
    &&& b.pan == a.pan
    &&& b.zoom == a.zoom
    &&& b.selected_node_id == a.selected_node_id
    &&& b.nodes@.len() == a.nodes@.len()
    &&& forall|j: int| 0 <= j < a.nodes@.len() && j != k ==> #[trigger] b.nodes@[j] == a.nodes@[j]
    &&& b.nodes@[k].id == a.nodes@[k].id
    &&& b.nodes@[k].name == a.nodes@[k].name
    &&& b.nodes@[k].pos == a.nodes@[k].pos
    &&& b.nodes@[k].outputs == a.nodes@[k].outputs
    &&& b.nodes@[k].cache_output == a.nodes@[k].cache_output
    &&& b.nodes@[k].has_cached_output == a.nodes@[k].has_cached_output
    &&& b.nodes@[k].terminal == a.nodes@[k].terminal
    &&& b.nodes@[k].inputs@.len() == a.nodes@[k].inputs@.len()
    &&& forall|j: int|
        0 <= j < a.nodes@[k].inputs@.len() && j != input.index as int
            ==> #[trigger] b.nodes@[k].inputs@[j] == a.nodes@[k].inputs@[j]
    &&& b.nodes@[k].inputs@[input.index as int].name == a.nodes@[k].inputs@[input.index as int].name
    &&& b.nodes@[k].inputs@[input.index as int].connection == Some(
        Connection { node_id: output.node_id, output_index: output.index },
    )
}

/// The nodes of `b` are those of `a` with exactly the pair's connection
/// written; the camera and selection are left open (they may move later
/// in the same tick).
pub open spec fn connection_overwritten(a: Graph, b: Graph, start: PortRef, end: PortRef) -> bool {
    let output = output_of(start, end);
    let input = input_of(start, end);
    let k = a.node_index_spec(input.node_id);
    &&& b.nodes@.len() == a.nodes@.len()
    &&& forall|j: int| 0 <= j < a.nodes@.len() && j != k ==> #[trigger] b.nodes@[j] == a.nodes@[j]
    &&& b.nodes@[k].id == a.nodes@[k].id
    &&& b.nodes@[k].inputs@.len() == a.nodes@[k].inputs@.len()
    &&& forall|j: int|
        0 <= j < a.nodes@[k].inputs@.len() && j != input.index as int
            ==> #[trigger] b.nodes@[k].inputs@[j] == a.nodes@[k].inputs@[j]
    &&& b.nodes@[k].inputs@[input.index as int].connection == Some(
        Connection { node_id: output.node_id, output_index: output.index },
    )
}

/// Commit a port-to-port connection: the two references must be of
/// opposite kinds and both in range at existing nodes; the input's
/// connection is then overwritten with the output. A reference of the
/// same kind or out of range rejects the assignment with the graph
/// untouched.
#[verifier::loop_isolation(false)]
pub fn apply_connection(graph: &mut Graph, start: PortRef, end: PortRef) -> (ok: bool)
    requires
        old(graph).ids_unique(),
    ensures
        !ok ==> *final(graph) == *old(graph),
        ok <==> connection_permitted(*old(graph), start, end),
        ok ==> connection_committed(*old(graph), *final(graph), start, end),
{
    if start.kind == end.kind {
        return false;
    }
    let (output_port, input_port) = if start.kind == PortKind::Output {
        (start, end)
    } else {
        (end, start)
    };
    let out_k = match graph.node_index(output_port.node_id) {
        Some(k) => k,
        None => {
            return false;
        },
    };
    proof {
        lemma_first_index_is_chosen(*graph, output_port.node_id, out_k as int);
    }
    if output_port.index >= graph.nodes[out_k].outputs.len() {
        return false;
    }
    let in_k = match graph.node_index(input_port.node_id) {
        Some(k) => k,
        None => {
            return false;
        },
    };
    proof {
        lemma_first_index_is_chosen(*graph, input_port.node_id, in_k as int);
    }
    if input_port.index >= graph.nodes[in_k].inputs.len() {
        return false;
    }
    graph.nodes[in_k].inputs[input_port.index].connection = Some(
        Connection { node_id: output_port.node_id, output_index: output_port.index },
    );
    true
}

/// With unique identifiers, the first index carrying `id` is the chosen
/// one.
pub proof fn lemma_first_index_is_chosen(g: Graph, id: NodeId, k: int)
    requires
        g.ids_unique(),
        0 <= k < g.nodes@.len(),
        g.nodes@[k].id == id,
    ensures
        g.has_node(id),
        g.node_index_spec(id) == k,
{
    assert(g.has_node(id));
    let w = g.node_index_spec(id);
    assert(0 <= w < g.nodes@.len() && g.nodes@[w].id == id);
    if w != k {
        if w < k {
            assert(g.nodes@[w].id != g.nodes@[k].id);
        } else {
            assert(g.nodes@[k].id != g.nodes@[w].id);
        }
    }
}

/// A stored coordinate saturated at the coordinate bound.
pub open spec fn clamp_coord_spec(p: int) -> int {
    if p < -COORD_LIMIT {
        -COORD_LIMIT as int
    } else if p > COORD_LIMIT {
        COORD_LIMIT as int
    } else {
        p
    }
}

/// Move the dragged node by a screen-space pointer delta: the stored
/// graph-space position advances by the delta divided by the zoom
/// exactly, saturating at the coordinate bound.
#[verifier::loop_isolation(false)]
pub fn drag_node(graph: &mut Graph, k: usize, delta: Vec2i, zoom: i64)
    requires
        (k as int) < old(graph).nodes@.len(),
        old(graph).nodes@[k as int].pos.in_bounds(),
        delta.in_bounds(),
        MIN_ZOOM <= zoom <= MAX_ZOOM,
    ensures
        final(graph).id == old(graph).id,
        final(graph).pan == old(graph).pan,
        final(graph).zoom == old(graph).zoom,
        final(graph).selected_node_id == old(graph).selected_node_id,
        final(graph).nodes@.len() == old(graph).nodes@.len(),
        forall|j: int|
            0 <= j < old(graph).nodes@.len() && j != k as int ==> #[trigger] final(graph).nodes@[j]
                == old(graph).nodes@[j],
        final(graph).nodes@[k as int] == (crate::model::Node {
            pos: final(graph).nodes@[k as int].pos,
            ..old(graph).nodes@[k as int]
        }),
        final(graph).nodes@[k as int].pos.x == clamp_coord_spec(
            old(graph).nodes@[k as int].pos.x + (delta.x * (ZOOM_ONE as int)) / (zoom as int),
        ),
        final(graph).nodes@[k as int].pos.y == clamp_coord_spec(
            old(graph).nodes@[k as int].pos.y + (delta.y * (ZOOM_ONE as int)) / (zoom as int),
        ),
        final(graph).nodes@[k as int].pos.in_bounds(),
{
    let step = crate::viewport::drag_delta_to_graph(delta, zoom);
    let pos = graph.nodes[k].pos;
    let nx = clamp_coord(pos.x + step.x);
    let ny = clamp_coord(pos.y + step.y);
    graph.nodes[k].pos = Vec2i { x: nx, y: ny };
}

/// Saturate a stored coordinate at the coordinate bound.
fn clamp_coord(p: i64) -> (r: i64)
    ensures
        r == clamp_coord_spec(p as int),
        -COORD_LIMIT <= r <= COORD_LIMIT,
{
    if p < -COORD_LIMIT {
        -COORD_LIMIT
    } else if p > COORD_LIMIT {
        COORD_LIMIT
    } else {
        p
    }
}

/// Appending to a polyline adds exactly the closing segment's length.
proof fn lemma_path_push(pts: Seq<Vec2i>, x: Vec2i)
    requires
        pts.len() >= 1,
    ensures
        path_length_spec(pts.push(x)) == path_length_spec(pts) + crate::geom::isqrt_spec(
            dist_sq_spec(pts[pts.len() - 1], x),
        ),
{
    let q = pts.push(x);
    assert(q.drop_last() =~= pts);
    assert(q[q.len() - 2] == pts[pts.len() - 1]);
    assert(q[q.len() - 1] == x);
}

/// The freehand cut path is within its budget: every point in bounds,
/// the summed length at most the cap, and no zero-length segments (so
/// the point count is bounded by the length).
pub open spec fn breaker_wf(points: Seq<Vec2i>) -> bool {
    &&& forall|i: int| 0 <= i < points.len() ==> (#[trigger] points[i]).in_bounds()
    &&& path_length_spec(points) <= MAX_BREAKER_LENGTH
    &&& path_length_spec(points) >= points.len() - 1
}

/// Extend the cut path toward the pointer: the point is appended only if
/// it moved more than two pixels from the last one, and only as far as
/// the remaining length budget allows; when the segment would overrun
/// the budget, its clamped prefix is appended instead, so the path never
/// exceeds the cap.
pub fn breaker_append(points: &mut Vec<Vec2i>, pos: Vec2i)
    requires
        pos.in_bounds(),
        breaker_wf(old(points)@),
    ensures
        breaker_wf(final(points)@),
        old(points)@.len() == 0 ==> final(points)@ == old(points)@,
        old(points)@.len() > 0 ==> ({
            let last = old(points)@[old(points)@.len() - 1];
            let d = crate::geom::isqrt_spec(dist_sq_spec(last, pos));
            let remaining = MAX_BREAKER_LENGTH - path_length_spec(old(points)@);
            if d <= 2000 || remaining <= 0 {
                final(points)@ == old(points)@
            } else if d <= remaining {
                final(points)@ == old(points)@.push(pos)
            } else {
                let c = Vec2i {
                    x: clamp_coord_spec(
                        last.x + ((pos.x - last.x) * remaining) / d,
                    ) as i64,
                    y: clamp_coord_spec(
                        last.y + ((pos.y - last.y) * remaining) / d,
                    ) as i64,
                };
                let dc = crate::geom::isqrt_spec(dist_sq_spec(last, c));
                if 1 <= dc <= remaining {
                    final(points)@ == old(points)@.push(c)
                } else {
                    final(points)@ == old(points)@
                }
            }
        }),
{
    let n = points.len();
    if n == 0 {
        return ;
    }
    let last = points[n - 1];
    let d = dist(last, pos);
    if d <= 2000 {
        return ;
    }
    let length_now = crate::curve::breaker_path_length(points);
    let remaining = MAX_BREAKER_LENGTH - length_now;
    if remaining <= 0 {
        return ;
    }
    if (d as i64) <= remaining {
        let ghost pre = points@;
        points.push(pos);
        proof {
            lemma_path_push(pre, pos);
        }
        return ;
    }
    let dd = d as i64;
    let dx = pos.x - last.x;
    let dy = pos.y - last.y;
    proof {
        assert(-900_000_000_000_000 <= dx * remaining <= 900_000_000_000_000) by (nonlinear_arith)
            requires
                -1_000_000_000 <= dx <= 1_000_000_000,
                0 < remaining <= 900_000,
        ;
        assert(-900_000_000_000_000 <= dy * remaining <= 900_000_000_000_000) by (nonlinear_arith)
            requires
                -1_000_000_000 <= dy <= 1_000_000_000,
                0 < remaining <= 900_000,
        ;
    }
    let qx = floor_div(dx * remaining, dd);
    let qy = floor_div(dy * remaining, dd);
    proof {
        assert(-900_000_000_000_001 <= qx <= 900_000_000_000_000) by (nonlinear_arith)
            requires
                dd * qx <= dx * remaining < dd * (qx + 1),
                1 <= dd,
                -900_000_000_000_000 <= dx * remaining <= 900_000_000_000_000,
        ;
        assert(-900_000_000_000_001 <= qy <= 900_000_000_000_000) by (nonlinear_arith)
            requires
                dd * qy <= dy * remaining < dd * (qy + 1),
                1 <= dd,
                -900_000_000_000_000 <= dy * remaining <= 900_000_000_000_000,
        ;
    }
    let c = Vec2i { x: clamp_coord(last.x + qx), y: clamp_coord(last.y + qy) };
    let dc = dist(last, c);
    if 1 <= dc && (dc as i64) <= remaining {
        let ghost pre = points@;
        points.push(c);
        proof {
            lemma_path_push(pre, c);
        }
    }
}

/// What one pointer session currently means: exactly one variant is
/// active at a time, entered from `Idle` by the hover-resolution
/// priority (port, then node region, then background).
#[derive(Debug)]
pub enum GestureState {
    Idle,
    Panning,
    NodeDragging { node_id: NodeId, moved: bool },
    ConnectionCutting { points: Vec<Vec2i> },
    ConnectionDragging { start_port: PortRef, start_pos: Vec2i, current_pos: Vec2i },
}

/// The gesture engine's cross-frame state.
#[derive(Debug)]
pub struct GraphUi {
    pub state: GestureState,
}

/// What the tick asks the host to do (the engine also applies both
/// itself): select a node, or remove one.
#[derive(Clone, Copy, PartialEq, Eq, Structural, Debug)]
pub struct NodeInteraction {
    pub selection_request: Option<NodeId>,
    pub remove_request: Option<NodeId>,
}

/// One tick's pointer, button, scroll and measurement state, as plain
/// values. `zoom_delta` is the combined multiplicative zoom signal in
/// thousandths (`ZOOM_ONE` means none); `scroll_delta` is the raw scroll
/// used for plain panning, and must be zero when the scroll was already
/// folded into `zoom_delta`.
#[derive(Debug)]
pub struct FrameInput {
    pub viewport: Recti,
    pub pointer: Option<Vec2i>,
    pub cursor: Option<Vec2i>,
    pub primary_pressed: bool,
    pub primary_down: bool,
    pub primary_released: bool,
    pub middle_down: bool,
    pub pointer_delta: Vec2i,
    pub scroll_delta: Vec2i,
    pub zoom_delta: i64,
    pub text_widths: Vec<NodeTextWidths>,
}

impl FrameInput {
    /// The tick's inputs are in range and its measurements line up with
    /// the graph.
    pub open spec fn wf(self, g: Graph) -> bool {
        &&& self.viewport.min.in_bounds()
        &&& self.viewport.max.in_bounds()
        &&& self.viewport.min.x <= self.viewport.max.x
        &&& self.viewport.min.y <= self.viewport.max.y
        &&& (self.pointer is Some ==> self.pointer->0.in_bounds())
        &&& (self.cursor is Some ==> self.cursor->0.in_bounds())
        &&& self.pointer_delta.in_bounds()
        &&& self.scroll_delta.in_bounds()
        &&& 0 <= self.zoom_delta <= crate::viewport::ZOOM_DELTA_LIMIT
        &&& self.text_widths@.len() == g.nodes@.len()
        &&& forall|i: int|
            0 <= i < g.nodes@.len() ==> (#[trigger] self.text_widths@[i]).wf()
                && self.text_widths@[i].matches(g.nodes@[i])
    }
}

impl GraphUi {
    /// The engine's own invariant: an active cut path is within budget,
    /// and an active connection drag holds on-screen endpoints.
    pub open spec fn wf(self) -> bool {
        match self.state {
            GestureState::ConnectionCutting { points } => breaker_wf(points@),
            GestureState::ConnectionDragging { start_port, start_pos, current_pos } => {
                &&& -SCREEN_LIMIT <= start_pos.x <= SCREEN_LIMIT
                &&& -SCREEN_LIMIT <= start_pos.y <= SCREEN_LIMIT
                &&& -SCREEN_LIMIT <= current_pos.x <= SCREEN_LIMIT
                &&& -SCREEN_LIMIT <= current_pos.y <= SCREEN_LIMIT
            },
            _ => true,
        }
    }

    /// Abandon whatever gesture is in progress.
    pub fn reset(&mut self)
        ensures
            final(self).state is Idle,
            final(self).wf(),
    {
        self.state = GestureState::Idle;
    }
}

impl Default for GraphUi {
    /// A fresh engine with no gesture in progress.
    fn default() -> (r: GraphUi)
        ensures
            r.state is Idle,
            r.wf(),
    {
        GraphUi { state: GestureState::Idle }
    }
}

/// Flip one node's cache-requested toggle; everything else is untouched.
fn toggle_cache(graph: &mut Graph, k: usize)
    requires
        old(graph).engine_wf(),
        (k as int) < old(graph).nodes@.len(),
    ensures
        final(graph).engine_wf(),
        final(graph).id == old(graph).id,
        final(graph).nodes@.len() == old(graph).nodes@.len(),
        final(graph).selected_node_id == old(graph).selected_node_id,
        final(graph).zoom == old(graph).zoom,
        final(graph).pan == old(graph).pan,
        crate::model::same_node_ids(*old(graph), *final(graph)),
        crate::model::same_connections(*old(graph), *final(graph)),
        forall|j: int|
            0 <= j < old(graph).nodes@.len() && j != k as int ==> #[trigger] final(graph).nodes@[j]
                == old(graph).nodes@[j],
        final(graph).nodes@[k as int] == (crate::model::Node {
            cache_output: !old(graph).nodes@[k as int].cache_output,
            ..old(graph).nodes@[k as int]
        }),
{
    let ghost pre = *graph;
    let v = graph.nodes[k].cache_output;
    graph.nodes[k].cache_output = !v;
    proof {
        lemma_pointwise_wf(pre, *graph, k as int);
    }
}

/// A graph differing from a valid one in a single node's flags or
/// position (identifier, ports and connections kept, position still in
/// bounds) is still valid.
proof fn lemma_pointwise_wf(a: Graph, b: Graph, k: int)
    requires
        a.engine_wf(),
        b.zoom == a.zoom,
        b.pan == a.pan,
        b.selected_node_id == a.selected_node_id,
        b.nodes@.len() == a.nodes@.len(),
        0 <= k < a.nodes@.len(),
        forall|j: int|
            0 <= j < a.nodes@.len() && j != k ==> #[trigger] b.nodes@[j] == a.nodes@[j],
        b.nodes@[k].id == a.nodes@[k].id,
        b.nodes@[k].inputs == a.nodes@[k].inputs,
        b.nodes@[k].outputs == a.nodes@[k].outputs,
        b.nodes@[k].pos.in_bounds(),
    ensures
        b.engine_wf(),
{
    assert forall|i: int| 0 <= i < a.nodes@.len() implies (#[trigger] b.nodes@[i]).id
        == a.nodes@[i].id && b.nodes@[i].outputs@.len() == a.nodes@[i].outputs@.len()
        && b.nodes@[i].inputs@.len() == a.nodes@[i].inputs@.len() && b.nodes@[i].pos.in_bounds() by {
        if i != k {
            assert(b.nodes@[i] == a.nodes@[i]);
            assert((a.nodes@[i].pos).in_bounds());
        }
    }
    assert forall|i: int, j: int|
        0 <= i < b.nodes@.len() && 0 <= j < b.nodes@[i].inputs@.len()
            && #[trigger] b.nodes@[i].inputs@[j].connection is Some implies a.connection_valid(
        b.nodes@[i].inputs@[j].connection->Some_0,
    ) by {
        assert(b.nodes@[i].inputs@[j] == a.nodes@[i].inputs@[j]);
        assert(a.nodes@[i].inputs@[j].connection is Some);
    }
    crate::model::lemma_structure_preserves_validity(a, b);
}

/// Resolve a primary press on node `k` (no port hovered): the close
/// control removes the node, the cache control toggles its flag, the
/// free part of the header starts a drag, and anywhere else on the body
/// requests selection.
#[verifier::loop_isolation(false)]
fn press_on_node(
    graph: &mut Graph,
    origin: Vec2i,
    layout: &NodeLayout,
    style: &crate::style::GraphStyle,
    measures: &NodeTextWidths,
    zoom: i64,
    k: usize,
    ppos: Vec2i,
    width: i64,
) -> (r: (NodeInteraction, Option<NodeId>))
    requires
        old(graph).engine_wf(),
        old(graph).zoom == zoom,
        (k as int) < old(graph).nodes@.len(),
        origin.origin_bounded(),
        layout.wf(),
        style.wf(),
        measures.wf(),
        ppos.in_bounds(),
        200 <= width <= NODE_WIDTH_LIMIT,
    ensures
        final(graph).engine_wf(),
        final(graph).id == old(graph).id,
        match r.0.remove_request {
            Some(id) => old(graph).has_node(id) && !final(graph).has_node(id)
                && final(graph).nodes@.len() == old(graph).nodes@.len() - 1,
            None => final(graph).nodes@.len() == old(graph).nodes@.len(),
        },
        r.0.selection_request is Some ==> final(graph).selected_node_id == r.0.selection_request
            && final(graph).has_node(r.0.selection_request->Some_0),
        !(r.0.selection_request is Some && r.0.remove_request is Some),
        r.0.remove_request is None ==> crate::model::same_node_ids(*old(graph), *final(graph))
            && crate::model::same_connections(*old(graph), *final(graph)),
        final(graph).zoom == old(graph).zoom,
        final(graph).pan == old(graph).pan,
        r.1 is Some ==> r.0 == (NodeInteraction {
            selection_request: None,
            remove_request: None,
        }) && *final(graph) == *old(graph),
        ({
            let rect = node_rect_spec(*old(graph), origin, *layout, zoom as int, Seq::new(
                old(graph).nodes@.len(),
                |i: int| width,
            ), k as int);
            let id = old(graph).nodes@[k as int].id;
            let on_close = crate::layout::close_rect_spec(rect, *layout, zoom as int).contains_spec(
                ppos,
            );
            let on_cache = layout.cache_height > 0 && crate::layout::cache_button_rect_spec(
                rect,
                *layout,
                *measures,
                zoom as int,
            ).contains_spec(ppos);
            let drag_right = crate::layout::header_drag_right_spec(
                rect,
                *layout,
                *style,
                zoom as int,
                old(graph).nodes@[k as int].terminal,
                old(graph).nodes@[k as int].has_cached_output,
            );
            let on_header = rect.min.x <= ppos.x <= drag_right && rect.min.y <= ppos.y
                <= rect.min.y + layout.header_height;
            &&& (on_close ==> r.0.remove_request == Some(id))
            &&& (!on_close && on_cache ==> r.0 == (NodeInteraction {
                selection_request: None,
                remove_request: None,
            }) && r.1 is None && final(graph).nodes@[k as int].cache_output == !old(
                graph,
            ).nodes@[k as int].cache_output)
            &&& (!on_close && !on_cache && on_header ==> r.1 == Some(id))
            &&& (!on_close && !on_cache && !on_header ==> r.0.selection_request == Some(id)
                && r.1 is None)
        }),
{
    let mut interaction = NodeInteraction { selection_request: None, remove_request: None };
    let rect = crate::layout::node_rect_for_graph(origin, &graph.nodes[k], zoom, layout, width);
    proof {
        assert(rect == node_rect_spec(
            *graph,
            origin,
            *layout,
            zoom as int,
            Seq::new(graph.nodes@.len(), |i: int| width),
            k as int,
        ));
    }
    let controls = crate::layout::node_controls(
        rect,
        layout,
        style,
        measures,
        zoom,
        graph.nodes[k].terminal,
        graph.nodes[k].has_cached_output,
    );
    if controls.close.contains(ppos) {
        let id = graph.nodes[k].id;
        proof {
            assert(graph.nodes@[k as int].id == id);
        }
        interaction.remove_request = Some(id);
        let ghost pre = *graph;
        graph.remove_node(id);
        proof {
            crate::model::lemma_removal_preserves_validity(pre, *graph, id);
        }
        (interaction, None)
    } else if layout.cache_height > 0 && controls.cache_button.contains(ppos) {
        toggle_cache(graph, k);
        (interaction, None)
    } else if controls.header_drag.contains(ppos) {
        let id = graph.nodes[k].id;
        (interaction, Some(id))
    } else {
        let id = graph.nodes[k].id;
        proof {
            assert(graph.nodes@[k as int].id == id);
        }
        interaction.selection_request = Some(id);
        graph.select_node(id);
        (interaction, None)
    }
}

/// Commit the freehand cut: rebuild every connection curve, find the
/// ones the cut path crosses, and clear exactly those connections — a
/// connection is removed precisely when the path crosses its sampled
/// curve, and left intact when it crosses no sampled segment of it.
#[verifier::loop_isolation(false)]
pub fn finish_cut(
    graph: &mut Graph,
    origin: Vec2i,
    layout: &NodeLayout,
    zoom: i64,
    widths: &Vec<i64>,
    points: &Vec<Vec2i>,
)
    requires
        old(graph).engine_wf(),
        old(graph).zoom == zoom,
        origin.origin_bounded(),
        layout.wf(),
        widths@.len() == old(graph).nodes@.len(),
        forall|kk: int|
            0 <= kk < old(graph).nodes@.len() ==> 200 <= #[trigger] widths@[kk]
                <= NODE_WIDTH_LIMIT,
        forall|i: int| 0 <= i < points@.len() ==> (#[trigger] points@[i]).in_bounds(),
    ensures
        final(graph).engine_wf(),
        final(graph).id == old(graph).id,
        final(graph).zoom == old(graph).zoom,
        final(graph).pan == old(graph).pan,
        final(graph).nodes@.len() == old(graph).nodes@.len(),
        final(graph).selected_node_id == old(graph).selected_node_id,
        crate::model::same_node_ids(*old(graph), *final(graph)),
        forall|i: int, j: int|
            0 <= i < old(graph).nodes@.len() && 0 <= j < old(graph).nodes@[i].inputs@.len()
                ==> (#[trigger] final(graph).nodes@[i].inputs@[j]).connection == (match old(
                graph,
            ).nodes@[i].inputs@[j].connection {
                Some(c) => if crate::curve::curve_hit_spec(
                    crate::curve::curve_for(*old(graph), origin, *layout, zoom as int, widths@, i, j),
                    points@,
                ) {
                    None
                } else {
                    Some(c)
                },
                None => None::<Connection>,
            }),
{
    let curves = crate::curve::collect_connection_curves(graph, origin, layout, zoom, widths);
    proof {
        assert forall|i: int| 0 <= i < points@.len() implies (#[trigger] points@[i]).in_geom() by {
            assert(points@[i].in_bounds());
        }
    }
    let hits = crate::curve::connection_hits(&curves, points);
    let ghost pre = *graph;
    proof {
        assert forall|i: int, j: int|
            0 <= i < pre.nodes@.len() && 0 <= j < pre.nodes@[i].inputs@.len() implies (hits@.contains(
            crate::curve::ConnectionKey { target_node_id: pre.nodes@[i].id, input_index: j as usize },
        ) <==> (pre.nodes@[i].inputs@[j].connection is Some && crate::curve::curve_hit_spec(
            crate::curve::curve_for(pre, origin, *layout, zoom as int, widths@, i, j),
            points@,
        ))) by {
            let key = crate::curve::ConnectionKey {
                target_node_id: pre.nodes@[i].id,
                input_index: j as usize,
            };
            let cv = crate::curve::curve_for(pre, origin, *layout, zoom as int, widths@, i, j);
            if pre.nodes@[i].inputs@[j].connection is Some && crate::curve::curve_hit_spec(
                cv,
                points@,
            ) {
                assert(curves@.contains(cv));
                let t = choose|t: int| 0 <= t < curves@.len() && curves@[t] == cv;
                assert(crate::curve::curve_hit_spec(curves@[t], points@));
                assert(hits@.contains(curves@[t].key));
                assert(cv.key == key);
            }
            if hits@.contains(key) {
                let t = choose|t: int| 0 <= t < hits@.len() && hits@[t] == key;
                assert(crate::curve::names_hit_curve(curves@, points@, hits@[t]));
                let m = choose|m: int|
                    0 <= m < curves@.len() && (#[trigger] curves@[m]).key == key
                        && crate::curve::curve_hit_spec(curves@[m], points@);
                assert(crate::curve::is_curve_of(
                    pre,
                    origin,
                    *layout,
                    zoom as int,
                    widths@,
                    curves@[m],
                ));
                let (i2, j2): (int, int) = choose|i2: int, j2: int|
                    0 <= i2 < pre.nodes@.len() && 0 <= j2 < pre.nodes@[i2].inputs@.len()
                        && pre.nodes@[i2].inputs@[j2].connection is Some && curves@[m]
                        == #[trigger] crate::curve::curve_for(
                        pre,
                        origin,
                        *layout,
                        zoom as int,
                        widths@,
                        i2,
                        j2,
                    );
                assert(curves@[m].key == (crate::curve::ConnectionKey {
                    target_node_id: pre.nodes@[i2].id,
                    input_index: j2 as usize,
                }));
                assert(pre.nodes@[i2].id == pre.nodes@[i].id);
                if i2 != i {
                    if i2 < i {
                        assert(pre.nodes@[i2].id != pre.nodes@[i].id);
                    } else {
                        assert(pre.nodes@[i].id != pre.nodes@[i2].id);
                    }
                }
                assert(i2 == i);
                assert(j2 == j);
                assert(pre.nodes@[i].inputs@[j].connection is Some);
                assert(crate::curve::curve_hit_spec(cv, points@));
            }
        }
    }
    crate::curve::remove_connections(graph, &hits);
    proof {
        assert forall|i: int|
            0 <= i < pre.nodes@.len() implies (#[trigger] graph.nodes@[i]).id == pre.nodes@[i].id
            && graph.nodes@[i].outputs@.len() == pre.nodes@[i].outputs@.len()
            && graph.nodes@[i].inputs@.len() == pre.nodes@[i].inputs@.len()
            && graph.nodes@[i].pos.in_bounds() by {
            assert((pre.nodes@[i].pos).in_bounds());
        }
        assert forall|i: int, j: int|
            0 <= i < graph.nodes@.len() && 0 <= j < graph.nodes@[i].inputs@.len()
                && #[trigger] graph.nodes@[i].inputs@[j].connection is Some implies pre.connection_valid(
            graph.nodes@[i].inputs@[j].connection->Some_0,
        ) by {
            assert(graph.nodes@[i].inputs@[j].connection == pre.nodes@[i].inputs@[j].connection);
            assert(pre.nodes@[i].inputs@[j].connection is Some);
        }
        crate::model::lemma_structure_preserves_validity(pre, *graph);
    }
}

/// Commit the connection drag: if the release lands within the activation
/// radius of a port of the opposite kind, assign the connection;
/// otherwise discard it.
#[verifier::loop_isolation(false)]
fn finish_connect(
    graph: &mut Graph,
    start_port: PortRef,
    cur: Vec2i,
    target: PortInfo,
    activation: i64,
)
    requires
        old(graph).engine_wf(),
        -SCREEN_LIMIT <= cur.x <= SCREEN_LIMIT,
        -SCREEN_LIMIT <= cur.y <= SCREEN_LIMIT,
        -SCREEN_LIMIT <= target.center.x <= SCREEN_LIMIT,
        -SCREEN_LIMIT <= target.center.y <= SCREEN_LIMIT,
        0 < activation <= 1_000_000,
    ensures
        final(graph).engine_wf(),
        final(graph).id == old(graph).id,
        final(graph).zoom == old(graph).zoom,
        final(graph).pan == old(graph).pan,
        final(graph).nodes@.len() == old(graph).nodes@.len(),
        final(graph).selected_node_id == old(graph).selected_node_id,
        crate::model::same_node_ids(*old(graph), *final(graph)),
        crate::model::same_connections(*old(graph), *final(graph)) || (target.port.kind
            != start_port.kind && connection_committed(
            *old(graph),
            *final(graph),
            start_port,
            target.port,
        )),
        target.port.kind == start_port.kind ==> *final(graph) == *old(graph),
        (target.port.kind != start_port.kind && dist_sq_spec(cur, target.center) <= activation
            * activation) ==> (connection_overwritten(
            *old(graph),
            *final(graph),
            start_port,
            target.port,
        ) || !connection_permitted(*old(graph), start_port, target.port)),
{
    let kinds_differ = match (start_port.kind, target.port.kind) {
        (PortKind::Output, PortKind::Input) => true,
        (PortKind::Input, PortKind::Output) => true,
        _ => false,
    };
    if kinds_differ && port_in_activation_range_wide(cur, target.center, activation) {
        let ghost pre = *graph;
        let ok = apply_connection(graph, start_port, target.port);
        proof {
            if ok {
                lemma_connection_commit_wf(pre, *graph, start_port, target.port);
            }
        }
    }
}

/// Advance a node drag by the tick's pointer delta and keep the node
/// selected: the dragged node's stored position moves by the delta
/// divided by the zoom exactly (saturating at the coordinate bound), all
/// other nodes stay put, and a vanished node leaves the graph untouched.
#[verifier::loop_isolation(false)]
fn drag_update(graph: &mut Graph, node_id: NodeId, delta: Vec2i, zoom: i64)
    requires
        old(graph).engine_wf(),
        old(graph).zoom == zoom,
        delta.in_bounds(),
    ensures
        final(graph).engine_wf(),
        final(graph).id == old(graph).id,
        final(graph).zoom == old(graph).zoom,
        final(graph).pan == old(graph).pan,
        final(graph).nodes@.len() == old(graph).nodes@.len(),
        crate::model::same_node_ids(*old(graph), *final(graph)),
        crate::model::same_connections(*old(graph), *final(graph)),
        final(graph).has_node(node_id) ==> final(graph).selected_node_id == Some(node_id),
        old(graph).has_node(node_id) == final(graph).has_node(node_id),
        !old(graph).has_node(node_id) ==> *final(graph) == *old(graph),
        old(graph).has_node(node_id) ==> ({
            let k = old(graph).node_index_spec(node_id);
            &&& final(graph).selected_node_id == Some(node_id)
            &&& final(graph).nodes@[k].pos.x == clamp_coord_spec(
                old(graph).nodes@[k].pos.x + (delta.x * (ZOOM_ONE as int)) / (zoom as int),
            )
            &&& final(graph).nodes@[k].pos.y == clamp_coord_spec(
                old(graph).nodes@[k].pos.y + (delta.y * (ZOOM_ONE as int)) / (zoom as int),
            )
            &&& forall|j: int|
                0 <= j < old(graph).nodes@.len() && j != k ==> #[trigger] final(graph).nodes@[j]
                    == old(graph).nodes@[j]
        }),
{
    match graph.node_index(node_id) {
        Some(k) => {
            let ghost pre = *graph;
            proof {
                lemma_first_index_is_chosen(pre, node_id, k as int);
            }
            drag_node(graph, k, delta, zoom);
            proof {
                lemma_pointwise_wf(pre, *graph, k as int);
                assert(graph.nodes@[k as int].id == node_id);
            }
            graph.select_node(node_id);
            proof {
                assert(graph.nodes@[k as int].id == node_id);
            }
        },
        None => {},
    }
}

impl GraphUi {
    /// Process one input tick: resolve the pointer against the current
    /// frame geometry into at most one gesture, advance it, commit any
    /// mutation it ends with, and report the selection and removal the
    /// tick requested. The contract fixes the tick's committed effects:
    /// which gesture a press starts and what each control region of a
    /// pressed node does; the exact per-connection outcome of a cut
    /// release; the exact drag step of a node-drag tick; the commit or
    /// discard of a connect release; and the camera, which moves only by
    /// middle-drag panning, plain scrolling, or a cursor-anchored zoom,
    /// each by its exact formula. The structural invariants are
    /// preserved, connections change only through a cut or connect
    /// release, and removal and selection requests always name real
    /// nodes.
    #[verifier::loop_isolation(false)]
    #[verifier::rlimit(100)]
    pub fn render(&mut self, input: &FrameInput, graph: &mut Graph) -> (r: NodeInteraction)
        requires
            old(graph).engine_wf(),
            input.wf(*old(graph)),
            old(self).wf(),
        ensures
            final(self).wf(),
            final(graph).engine_wf(),
            final(graph).id == old(graph).id,
            match r.remove_request {
                Some(id) => old(graph).has_node(id) && !final(graph).has_node(id)
                    && final(graph).nodes@.len() == old(graph).nodes@.len() - 1,
                None => crate::model::same_node_ids(*old(graph), *final(graph)),
            },
            r.selection_request is Some ==> final(graph).selected_node_id == r.selection_request
                && final(graph).has_node(r.selection_request->Some_0),
            !(r.selection_request is Some && r.remove_request is Some),
            old(self).state is ConnectionCutting && !input.primary_down ==> final(self).state
                is Idle,
            old(self).state is ConnectionDragging && !input.primary_down ==> final(self).state
                is Idle,
            old(self).state is NodeDragging && !input.primary_down ==> final(self).state is Idle,
            old(self).state is Panning && !input.middle_down ==> final(self).state is Idle,
            old(self).state is Idle && !input.primary_pressed && !input.middle_down
                ==> final(self).state is Idle,
            r.remove_request is Some || r.selection_request is Some ==> old(self).state is Idle
                || old(self).state is NodeDragging,
            ({
                let g0 = *old(graph);
                let vmin = input.viewport.min;
                let origin = Vec2i {
                    x: (vmin.x + g0.pan.x) as i64,
                    y: (vmin.y + g0.pan.y) as i64,
                };
                let zi = g0.zoom as int;
                let lay = crate::layout::frame_layout_spec(zi);
                let ws = frame_widths_spec(g0, input.text_widths@, zi);
                let act = frame_activation_spec(zi);
                let ptr_in = input.pointer is Some && input.viewport.contains_spec(
                    input.pointer->0,
                );
                let p = input.pointer->0;
                let no_port = !some_port_within(g0, origin, lay, zi, ws, p, act);
                let no_node = forall|j: int|
                    0 <= j < g0.nodes@.len() ==> !(#[trigger] node_rect_spec(
                        g0,
                        origin,
                        lay,
                        zi,
                        ws,
                        j,
                    )).contains_spec(p);
                let cursor_in = input.cursor is Some && input.viewport.contains_spec(
                    input.cursor->0,
                );
                let c = input.cursor->0;
                let zoom_tick = cursor_in && input.zoom_delta != ZOOM_ONE;
                let scroll_tick = cursor_in && input.zoom_delta == ZOOM_ONE && !(
                input.scroll_delta.x == 0 && input.scroll_delta.y == 0);
                let mid_pan = input.middle_down && ptr_in && ((old(self).state is Idle
                    && !input.primary_pressed && no_node && no_port) || old(self).state
                    is Panning);
                let pan1 = if mid_pan {
                    Vec2i {
                        x: crate::viewport::clamp_pan_spec(
                            g0.pan.x + input.pointer_delta.x,
                        ) as i64,
                        y: crate::viewport::clamp_pan_spec(
                            g0.pan.y + input.pointer_delta.y,
                        ) as i64,
                    }
                } else {
                    g0.pan
                };
                let target = crate::viewport::clamp_zoom_spec(
                    (g0.zoom * input.zoom_delta) / (ZOOM_ONE as int),
                );
                // press on empty background starts the cut and clears the selection
                &&& ((old(self).state is Idle && input.primary_pressed && ptr_in && no_port
                    && no_node) ==> (final(self).state is ConnectionCutting
                    && final(graph).selected_node_id is None))
                // press within a port's activation radius starts a connection drag
                &&& ((old(self).state is Idle && input.primary_pressed && ptr_in && !no_port)
                    ==> final(self).state is ConnectionDragging)
                // the zoom changes only through a cursor-anchored zoom event
                &&& (!zoom_tick ==> final(graph).zoom == g0.zoom)
                &&& (zoom_tick ==> final(graph).zoom == target)
                // the pan moves only by middle-drag, plain scroll, or zoom anchoring
                &&& (!zoom_tick && !scroll_tick ==> final(graph).pan == pan1)
                &&& (scroll_tick ==> final(graph).pan == (Vec2i {
                    x: crate::viewport::clamp_pan_spec(pan1.x + input.scroll_delta.x) as i64,
                    y: crate::viewport::clamp_pan_spec(pan1.y + input.scroll_delta.y) as i64,
                }))
                &&& (zoom_tick ==> (if target == g0.zoom {
                    final(graph).pan == pan1
                } else {
                    &&& final(graph).pan.x == crate::viewport::clamp_pan_spec(
                        crate::viewport::anchored_pan_axis_spec(
                            c.x as int,
                            vmin.x as int,
                            crate::viewport::screen_to_graph_axis_spec(
                                c.x as int,
                                vmin.x as int,
                                pan1.x as int,
                                zi,
                            ),
                            target,
                        ),
                    )
                    &&& final(graph).pan.y == crate::viewport::clamp_pan_spec(
                        crate::viewport::anchored_pan_axis_spec(
                            c.y as int,
                            vmin.y as int,
                            crate::viewport::screen_to_graph_axis_spec(
                                c.y as int,
                                vmin.y as int,
                                pan1.y as int,
                                zi,
                            ),
                            target,
                        ),
                    )
                }))
                // a cut release clears exactly the connections whose frame
                // curve the recorded path crosses
                &&& (old(self).state matches GestureState::ConnectionCutting { points }
                    ==> !input.primary_down ==> forall|i: int, j: int|
                    0 <= i < g0.nodes@.len() && 0 <= j < g0.nodes@[i].inputs@.len()
                        ==> (#[trigger] final(graph).nodes@[i].inputs@[j]).connection == (
                    match g0.nodes@[i].inputs@[j].connection {
                        Some(cc) => if crate::curve::curve_hit_spec(
                            crate::curve::curve_for(g0, origin, lay, zi, ws, i, j),
                            points@,
                        ) {
                            None
                        } else {
                            Some(cc)
                        },
                        None => None::<Connection>,
                    }))
                // on every other tick without a removal, connections are untouched
                &&& ((r.remove_request is None && !(old(self).state is ConnectionCutting
                    && !input.primary_down) && !(old(self).state is ConnectionDragging
                    && !input.primary_down)) ==> crate::model::same_connections(
                    g0,
                    *final(graph),
                ))
                // a connect release either leaves every connection alone or
                // commits to some compatible port within the activation radius
                &&& (old(self).state matches GestureState::ConnectionDragging {
                    start_port,
                    start_pos,
                    current_pos,
                } ==> !input.primary_down ==> (crate::model::same_connections(g0, *final(graph))
                    || (ptr_in && exists|pi: PortInfo|
                    #[trigger] is_port_of(g0, origin, lay, zi, ws, pi) && pi.port.kind
                        != start_port.kind && dist_sq_spec(pi.center, p) <= act * act
                        && connection_overwritten(g0, *final(graph), start_port, pi.port))))
                &&& ((old(self).state is ConnectionDragging && !input.primary_down && (!ptr_in
                    || no_port)) ==> crate::model::same_connections(g0, *final(graph)))
                // with exactly one port within the activation radius and of
                // the opposite kind, the release must commit the connection
                // (unless the session's source port no longer resolves)
                &&& (old(self).state matches GestureState::ConnectionDragging {
                    start_port,
                    start_pos,
                    current_pos,
                } ==> !input.primary_down ==> ptr_in ==> forall|pi: PortInfo|
                    (#[trigger] is_port_of(g0, origin, lay, zi, ws, pi) && dist_sq_spec(
                        pi.center,
                        p,
                    ) <= act * act && pi.port.kind != start_port.kind && (forall|pj: PortInfo|
                        #[trigger] is_port_of(g0, origin, lay, zi, ws, pj) && dist_sq_spec(
                            pj.center,
                            p,
                        ) <= act * act ==> pj == pi)) ==> (connection_overwritten(
                        g0,
                        *final(graph),
                        start_port,
                        pi.port,
                    ) || !connection_permitted(g0, start_port, pi.port)))
                // a drag tick moves the dragged node by the pointer delta
                // divided by the zoom, exactly, and keeps it selected
                &&& (old(self).state matches GestureState::NodeDragging { node_id, moved }
                    ==> (input.primary_down && !(input.pointer_delta.x == 0
                    && input.pointer_delta.y == 0)) ==> (if g0.has_node(node_id) {
                    let k = g0.node_index_spec(node_id);
                    &&& final(graph).selected_node_id == Some(node_id)
                    &&& r.selection_request == Some(node_id)
                    &&& final(graph).nodes@[k].pos.x == clamp_coord_spec(
                        g0.nodes@[k].pos.x + (input.pointer_delta.x * (ZOOM_ONE as int)) / zi,
                    )
                    &&& final(graph).nodes@[k].pos.y == clamp_coord_spec(
                        g0.nodes@[k].pos.y + (input.pointer_delta.y * (ZOOM_ONE as int)) / zi,
                    )
                    &&& forall|j: int|
                        0 <= j < g0.nodes@.len() && j != k ==> #[trigger] final(graph).nodes@[j]
                            == g0.nodes@[j]
                } else {
                    final(graph).nodes == g0.nodes
                }))
                // a press on a node resolves close, cache, header drag and
                // body selection in that order, by the frame control regions
                &&& ((old(self).state is Idle && input.primary_pressed && ptr_in && no_port)
                    ==> forall|k: int|
                    (0 <= k < g0.nodes@.len() && (#[trigger] node_rect_spec(
                        g0,
                        origin,
                        lay,
                        zi,
                        ws,
                        k,
                    )).contains_spec(p) && (forall|j: int|
                        k < j < g0.nodes@.len() ==> !(#[trigger] node_rect_spec(
                            g0,
                            origin,
                            lay,
                            zi,
                            ws,
                            j,
                        )).contains_spec(p))) ==> ({
                        let rect = node_rect_spec(g0, origin, lay, zi, ws, k);
                        let id = g0.nodes@[k].id;
                        let on_close = crate::layout::close_rect_spec(
                            rect,
                            lay,
                            zi,
                        ).contains_spec(p);
                        let on_cache = lay.cache_height > 0
                            && crate::layout::cache_button_rect_spec(
                            rect,
                            lay,
                            input.text_widths@[k],
                            zi,
                        ).contains_spec(p);
                        let drag_right = crate::layout::header_drag_right_spec(
                            rect,
                            lay,
                            crate::style::style_spec(
                                zi,
                                crate::style::Rgba { r: 40, g: 40, b: 48, a: 255 },
                                crate::style::StrokeStyle {
                                    width: 1000,
                                    color: (crate::style::Rgba { r: 90, g: 90, b: 110, a: 255 }),
                                },
                                crate::style::Rgba { r: 110, g: 170, b: 255, a: 255 },
                            ),
                            zi,
                            g0.nodes@[k].terminal,
                            g0.nodes@[k].has_cached_output,
                        );
                        let on_header = rect.min.x <= p.x <= drag_right && rect.min.y <= p.y
                            <= rect.min.y + lay.header_height;
                        &&& (on_close ==> r.remove_request == Some(id))
                        &&& (!on_close && on_cache ==> final(graph).nodes@[k].cache_output == !g0.nodes@[k].cache_output)
                        &&& (!on_close && !on_cache && on_header ==> final(self).state == (
                        GestureState::NodeDragging { node_id: id, moved: false }))
                        &&& (!on_close && !on_cache && !on_header ==> r.selection_request == Some(
                            id,
                        ) && final(graph).selected_node_id == Some(id))
                    }))
            }),
    {
        let zoom = graph.zoom;
        let origin = Vec2i {
            x: input.viewport.min.x + graph.pan.x,
            y: input.viewport.min.y + graph.pan.y,
        };
        let base: NodeLayout = Default::default();
        let layout = base.scaled(zoom);
        let style = crate::style::GraphStyle::new(
            zoom,
            crate::style::Rgba { r: 40, g: 40, b: 48, a: 255 },
            crate::style::StrokeStyle {
                width: 1000,
                color: (crate::style::Rgba { r: 90, g: 90, b: 110, a: 255 }),
            },
            crate::style::Rgba { r: 110, g: 170, b: 255, a: 255 },
        );
        let widths = crate::layout::compute_node_widths(graph, &layout, &style, &input.text_widths);
        let port_radius = crate::layout::port_radius_for_scale(zoom);
        let scaled_radius = floor_div(port_radius * 1600, 1000);
        let activation = crate::geom::max_i64(scaled_radius, 10_000);
        proof {
            assert(0 < activation <= 1_000_000);
        }
        let ports = collect_ports(graph, origin, &layout, zoom, &widths);

        let mut pointer_in_rect = false;
        let mut ppos = Vec2i { x: 0, y: 0 };
        match input.pointer {
            Some(p) => {
                if input.viewport.contains(p) {
                    pointer_in_rect = true;
                    ppos = p;
                }
            },
            None => {},
        }
        let hovered_port: Option<PortInfo> = if pointer_in_rect {
            find_port_near(&ports, ppos, activation)
        } else {
            None
        };
        let over_node: Option<usize> = if pointer_in_rect {
            node_under_pointer(graph, origin, &layout, zoom, &widths, ppos)
        } else {
            None
        };
        proof {
            let zi = zoom as int;
            crate::layout::lemma_frame_layout(zi, layout);
            assert(widths@ =~= frame_widths_spec(*graph, input.text_widths@, zi));
            assert(activation == frame_activation_spec(zi));
            if pointer_in_rect {
                match hovered_port {
                    Some(p) => {
                        assert(ports@.contains(p) && dist_sq_spec(p.center, ppos) <= activation
                            * activation);
                        let t = choose|t: int| 0 <= t < ports@.len() && ports@[t] == p;
                        assert(is_port_of(*graph, origin, layout, zi, widths@, p));
                        assert(is_port_of(
                            *graph,
                            origin,
                            crate::layout::frame_layout_spec(zi),
                            zi,
                            frame_widths_spec(*graph, input.text_widths@, zi),
                            p,
                        ));
                        assert(some_port_within(
                            *graph,
                            origin,
                            layout,
                            zi,
                            widths@,
                            ppos,
                            activation as int,
                        ));
                    },
                    None => {
                        assert(!some_port_within(
                            *graph,
                            origin,
                            layout,
                            zi,
                            widths@,
                            ppos,
                            activation as int,
                        )) by {
                            if some_port_within(
                                *graph,
                                origin,
                                layout,
                                zi,
                                widths@,
                                ppos,
                                activation as int,
                            ) {
                                let pi = choose|pi: PortInfo|
                                    #[trigger] is_port_of(*graph, origin, layout, zi, widths@, pi)
                                        && dist_sq_spec(pi.center, ppos) <= (activation as int) * (
                                    activation as int);
                                if exists|i: int, idx: int|
                                    0 <= i < graph.nodes@.len() && 0 <= idx
                                        < graph.nodes@[i].inputs@.len() && pi
                                        == #[trigger] input_port_info(
                                        *graph,
                                        origin,
                                        layout,
                                        zi,
                                        i,
                                        idx,
                                    ) {
                                    let (i, idx): (int, int) = choose|i: int, idx: int|
                                        0 <= i < graph.nodes@.len() && 0 <= idx
                                            < graph.nodes@[i].inputs@.len() && pi
                                            == #[trigger] input_port_info(
                                            *graph,
                                            origin,
                                            layout,
                                            zi,
                                            i,
                                            idx,
                                        );
                                    assert(ports@.contains(pi));
                                    let t = choose|t: int|
                                        0 <= t < ports@.len() && ports@[t] == pi;
                                    assert(dist_sq_spec(ports@[t].center, ppos) > activation
                                        * activation);
                                } else {
                                    let (i, idx): (int, int) = choose|i: int, idx: int|
                                        0 <= i < graph.nodes@.len() && 0 <= idx
                                            < graph.nodes@[i].outputs@.len() && pi
                                            == #[trigger] output_port_info(
                                            *graph,
                                            origin,
                                            layout,
                                            zi,
                                            widths@,
                                            i,
                                            idx,
                                        );
                                    assert(ports@.contains(pi));
                                    let t = choose|t: int|
                                        0 <= t < ports@.len() && ports@[t] == pi;
                                    assert(dist_sq_spec(ports@[t].center, ppos) > activation
                                        * activation);
                                }
                            }
                        }
                    },
                }
            }
        }

        let mut interaction = NodeInteraction { selection_request: None, remove_request: None };

        let mut st = GestureState::Idle;
        core::mem::swap(&mut st, &mut self.state);
        match st {
            GestureState::Idle => {
                if input.primary_pressed && pointer_in_rect {
                    match hovered_port {
                        Some(port) => {
                            self.state = GestureState::ConnectionDragging {
                                start_port: port.port,
                                start_pos: port.center,
                                current_pos: port.center,
                            };
                        },
                        None => {
                            match over_node {
                                Some(k) => {
                                    let (acted, drag) = press_on_node(
                                        graph,
                                        origin,
                                        &layout,
                                        &style,
                                        &input.text_widths[k],
                                        zoom,
                                        k,
                                        ppos,
                                        widths[k],
                                    );
                                    interaction = acted;
                                    match drag {
                                        Some(id) => {
                                            self.state = GestureState::NodeDragging {
                                                node_id: id,
                                                moved: false,
                                            };
                                        },
                                        None => {},
                                    }
                                },
                                None => {
                                    graph.selected_node_id = None;
                                    let mut pts: Vec<Vec2i> = Vec::new();
                                    pts.push(ppos);
                                    proof {
                                        assert(breaker_wf(pts@));
                                    }
                                    self.state = GestureState::ConnectionCutting { points: pts };
                                },
                            }
                        },
                    }
                } else if input.middle_down && pointer_in_rect && over_node.is_none()
                    && hovered_port.is_none() {
                    crate::viewport::apply_pan(graph, input.pointer_delta);
                    self.state = GestureState::Panning;
                }
            },
            GestureState::Panning => {
                if input.middle_down {
                    if pointer_in_rect {
                        crate::viewport::apply_pan(graph, input.pointer_delta);
                    }
                    self.state = GestureState::Panning;
                }
            },
            GestureState::NodeDragging { node_id, moved } => {
                if input.primary_down {
                    let mut moved_now = moved;
                    if input.pointer_delta.x != 0 || input.pointer_delta.y != 0 {
                        drag_update(graph, node_id, input.pointer_delta, zoom);
                        if graph.node_index(node_id).is_some() {
                            interaction.selection_request = Some(node_id);
                        }
                        moved_now = true;
                    }
                    self.state = GestureState::NodeDragging { node_id, moved: moved_now };
                } else {
                    match graph.node_index(node_id) {
                        Some(k) => {
                            proof {
                                assert(graph.nodes@[k as int].id == node_id);
                            }
                            interaction.selection_request = Some(node_id);
                            graph.select_node(node_id);
                        },
                        None => {},
                    }
                }
            },
            GestureState::ConnectionCutting { points } => {
                let mut points = points;
                if input.primary_down {
                    if pointer_in_rect {
                        breaker_append(&mut points, ppos);
                    }
                    self.state = GestureState::ConnectionCutting { points };
                } else {
                    finish_cut(graph, origin, &layout, zoom, &widths, &points);
                }
            },
            GestureState::ConnectionDragging { start_port, start_pos, current_pos } => {
                let cur = if pointer_in_rect {
                    ppos
                } else {
                    current_pos
                };
                if input.primary_down {
                    self.state = GestureState::ConnectionDragging {
                        start_port,
                        start_pos,
                        current_pos: cur,
                    };
                } else {
                    let ghost g_pre = *graph;
                    match hovered_port {
                        Some(target) => {
                            finish_connect(graph, start_port, cur, target, activation);
                            proof {
                                let zi2 = zoom as int;
                                let lay2 = crate::layout::frame_layout_spec(zi2);
                                let ws2 = frame_widths_spec(g_pre, input.text_widths@, zi2);
                                let act2 = frame_activation_spec(zi2);
                                if pointer_in_rect {
                                    assert forall|pi: PortInfo|
                                        (#[trigger] is_port_of(g_pre, origin, lay2, zi2, ws2, pi)
                                            && dist_sq_spec(pi.center, ppos) <= act2 * act2
                                            && pi.port.kind != start_port.kind && (forall|
                                            pj: PortInfo,
                                        |
                                            #[trigger] is_port_of(g_pre, origin, lay2, zi2, ws2, pj)
                                                && dist_sq_spec(pj.center, ppos) <= act2 * act2
                                                ==> pj == pi)) implies (connection_overwritten(
                                        g_pre,
                                        *graph,
                                        start_port,
                                        pi.port,
                                    ) || !connection_permitted(g_pre, start_port, pi.port)) by {
                                        assert(is_port_of(g_pre, origin, lay2, zi2, ws2, target));
                                        assert(dist_sq_spec(target.center, ppos) <= act2 * act2);
                                        assert(target == pi);
                                        assert(dist_sq_spec(cur, target.center) == dist_sq_spec(
                                            target.center,
                                            cur,
                                        )) by (nonlinear_arith);
                                        assert(cur == ppos);
                                        assert(dist_sq_spec(cur, target.center) <= activation
                                            * activation);
                                    }
                                }
                            }
                        },
                        None => {},
                    }
                }
            },
        }

        let mut zoom_active = false;
        let mut cpos = Vec2i { x: 0, y: 0 };
        match input.cursor {
            Some(cp) => {
                if input.viewport.contains(cp) {
                    zoom_active = true;
                    cpos = cp;
                }
            },
            None => {},
        }
        if zoom_active {
            if input.zoom_delta != ZOOM_ONE {
                crate::viewport::apply_zoom_to_cursor(
                    graph,
                    cpos,
                    input.viewport.min,
                    input.zoom_delta,
                );
            } else if input.scroll_delta.x != 0 || input.scroll_delta.y != 0 {
                crate::viewport::apply_pan(graph, input.scroll_delta);
            }
        }
        interaction
    }
}

/// Committing a permitted connection keeps the graph valid: the
/// overwritten input now stores a connection whose node and output index
/// were just checked, and everything else is unchanged.
proof fn lemma_connection_commit_wf(a: Graph, b: Graph, start: PortRef, end: PortRef)
    requires
        a.engine_wf(),
        connection_permitted(a, start, end),
        connection_committed(a, b, start, end),
    ensures
        b.engine_wf(),
{
    let output = output_of(start, end);
    let input = input_of(start, end);
    let k = a.node_index_spec(input.node_id);
    assert(a.has_node(input.node_id));
    assert(0 <= k < a.nodes@.len() && a.nodes@[k].id == input.node_id);
    let w = a.node_index_spec(output.node_id);
    assert(0 <= w < a.nodes@.len() && a.nodes@[w].id == output.node_id);
    let c = Connection { node_id: output.node_id, output_index: output.index };
    assert(a.connection_valid(c)) by {
        assert(a.nodes@[w].id == c.node_id && c.output_index < a.nodes@[w].outputs@.len());
    }
    assert forall|i: int|
        0 <= i < a.nodes@.len() implies (#[trigger] b.nodes@[i]).id == a.nodes@[i].id
        && b.nodes@[i].outputs@.len() == a.nodes@[i].outputs@.len() && b.nodes@[i].inputs@.len()
        == a.nodes@[i].inputs@.len() && b.nodes@[i].pos.in_bounds() by {
        if i != k {
            assert(b.nodes@[i] == a.nodes@[i]);
        }
        assert((a.nodes@[i].pos).in_bounds());
    }
    assert forall|i: int, j: int|
        0 <= i < b.nodes@.len() && 0 <= j < b.nodes@[i].inputs@.len()
            && #[trigger] b.nodes@[i].inputs@[j].connection is Some implies a.connection_valid(
        b.nodes@[i].inputs@[j].connection->Some_0,
    ) by {
        if i == k && j == input.index as int {
            assert(b.nodes@[i].inputs@[j].connection == Some(c));
        } else if i == k {
            assert(0 <= j < a.nodes@[k].inputs@.len() && j != input.index as int);
            assert(b.nodes@[k].inputs@[j] == a.nodes@[k].inputs@[j]);
            assert(a.nodes@[i].inputs@[j].connection is Some);
        } else {
            assert(b.nodes@[i] == a.nodes@[i]);
            assert(a.nodes@[i].inputs@[j].connection is Some);
        }
    }
    crate::model::lemma_structure_preserves_validity(a, b);
}

} // verus!
