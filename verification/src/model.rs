//! The graph model: nodes, ports, connections, pan/zoom and selection,
//! together with the structural invariants that `validate` enforces and
//! the mutation primitives the gesture engine commits.

use vstd::prelude::*;

use crate::geom::Vec2i;

verus! {

/// A stable node (or graph) identifier; fresh ones come from a random
/// version-4 UUID, carried as its 128-bit value.
pub type NodeId = u128;

/// A back-reference stored on an input port: the producing node and the
/// index of its output.
#[derive(Clone, Copy, PartialEq, Eq, Structural, Debug)]
pub struct Connection {
    pub node_id: NodeId,
    pub output_index: usize,
}

/// An input port: a name and at most one incoming connection.
#[derive(Clone, Debug)]
pub struct Input {
    pub name: String,
    pub connection: Option<Connection>,
}

/// An output port: a name only; fan-out is implicit in the inputs that
/// reference it.
#[derive(Clone, Debug)]
pub struct Output {
    pub name: String,
}

/// A computational node on the canvas. `pos` is the top-left anchor in
/// graph space, in fixed-point units.
#[derive(Clone, Debug)]
pub struct Node {
    pub id: NodeId,
    pub name: String,
    pub pos: Vec2i,
    pub inputs: Vec<Input>,
    pub outputs: Vec<Output>,
    pub cache_output: bool,
    pub has_cached_output: bool,
    pub terminal: bool,
}

/// The whole editable document: an ordered node list plus the camera
/// (pan in fixed-point units, zoom in thousandths) and the selection.
#[derive(Clone, Debug)]
pub struct Graph {
    pub id: NodeId,
    pub nodes: Vec<Node>,
    pub pan: Vec2i,
    pub zoom: i64,
    pub selected_node_id: Option<NodeId>,
}

/// The reason `validate` or a format lookup rejected its input.
#[derive(Clone, Copy, PartialEq, Eq, Structural, Debug)]
pub enum GraphError {
    NonPositiveZoom,
    PanOutOfBounds,
    NodePositionOutOfBounds,
    DuplicateNodeId,
    MissingSelectedNode,
    MissingConnectionNode,
    ConnectionIndexOutOfRange,
    EmptyExtension,
    UnsupportedExtension,
    MissingExtension,
}

impl Graph {
    /// Some node of the graph carries this identifier.
    pub open spec fn has_node(self, id: NodeId) -> bool {
        exists|i: int| 0 <= i < self.nodes@.len() && #[trigger] self.nodes@[i].id == id
    }

    /// The index of the first node carrying this identifier.
    pub open spec fn node_index_spec(self, id: NodeId) -> int {
        choose|i: int| 0 <= i < self.nodes@.len() && #[trigger] self.nodes@[i].id == id
    }

    /// No two nodes share an identifier.
    pub open spec fn ids_unique(self) -> bool {
        forall|i: int, j: int|
            0 <= i < j < self.nodes@.len() ==> #[trigger] self.nodes@[i].id != #[trigger] self.nodes@[j].id
    }

    /// The connection points at an existing node and one of its outputs.
    pub open spec fn connection_valid(self, c: Connection) -> bool {
        exists|i: int|
            0 <= i < self.nodes@.len() && #[trigger] self.nodes@[i].id == c.node_id
                && c.output_index < self.nodes@[i].outputs@.len()
    }

    /// The connection points at an existing node (its output index aside).
    pub open spec fn connection_node_exists(self, c: Connection) -> bool {
        self.has_node(c.node_id)
    }

    /// Every stored connection is valid.
    pub open spec fn connections_valid(self) -> bool {
        forall|i: int, j: int|
            0 <= i < self.nodes@.len() && 0 <= j < self.nodes@[i].inputs@.len()
                && #[trigger] self.nodes@[i].inputs@[j].connection is Some
                ==> self.connection_valid(self.nodes@[i].inputs@[j].connection->Some_0)
    }

    /// Every stored connection points at an existing node.
    pub open spec fn connection_nodes_exist(self) -> bool {
        forall|i: int, j: int|
            0 <= i < self.nodes@.len() && 0 <= j < self.nodes@[i].inputs@.len()
                && #[trigger] self.nodes@[i].inputs@[j].connection is Some
                ==> self.has_node(self.nodes@[i].inputs@[j].connection->Some_0.node_id)
    }

    /// The selection, when set, references an existing node.
    pub open spec fn selection_valid(self) -> bool {
        self.selected_node_id is Some ==> self.has_node(self.selected_node_id->Some_0)
    }

    /// Pan fits the pan bound and every node position fits the
    /// stored-coordinate bound.
    pub open spec fn geometry_bounded(self) -> bool {
        &&& self.pan.pan_bounded()
        &&& forall|i: int| 0 <= i < self.nodes@.len() ==> (#[trigger] self.nodes@[i].pos).in_bounds()
    }

    /// The structural invariant `validate` certifies.
    pub open spec fn valid_spec(self) -> bool {
        &&& self.zoom >= 1
        &&& self.geometry_bounded()
        &&& self.ids_unique()
        &&& self.selection_valid()
        &&& self.connections_valid()
    }

    /// The index of the first node carrying `id`, scanning in order.
    pub fn node_index(&self, id: NodeId) -> (r: Option<usize>)
        ensures
            match r {
                Some(i) => i < self.nodes@.len() && self.nodes@[i as int].id == id && forall|j: int|
                    0 <= j < i ==> #[trigger] self.nodes@[j].id != id,
                None => !self.has_node(id),
            },
    {
        let n = self.nodes.len();
        let mut i: usize = 0;
        while i < n
            invariant
                n == self.nodes@.len(),
                i <= n,
                forall|j: int| 0 <= j < i ==> #[trigger] self.nodes@[j].id != id,
            decreases n - i,
        {
            if self.nodes[i].id == id {
                return Some(i);
            }
            i = i + 1;
        }
        None
    }

    /// Structural validation of an externally supplied graph: camera and
    /// positions in bounds, identifiers unique, selection and every
    /// connection resolvable. Returns the first violated rule, checking
    /// camera, positions, identifiers, selection, then connections.
    #[verifier::loop_isolation(false)]
    pub fn validate(&self) -> (r: Result<(), GraphError>)
        ensures
            r is Ok <==> self.valid_spec(),
            r == Err::<(), GraphError>(GraphError::NonPositiveZoom) <==> self.zoom < 1,
            r == Err::<(), GraphError>(GraphError::PanOutOfBounds) <==> self.zoom >= 1
                && !self.pan.pan_bounded(),
            r == Err::<(), GraphError>(GraphError::NodePositionOutOfBounds) <==> self.zoom >= 1
                && self.pan.pan_bounded() && !self.geometry_bounded(),
            r == Err::<(), GraphError>(GraphError::DuplicateNodeId) <==> self.zoom >= 1
                && self.geometry_bounded() && !self.ids_unique(),
            r == Err::<(), GraphError>(GraphError::MissingSelectedNode) <==> self.zoom >= 1
                && self.geometry_bounded() && self.ids_unique() && !self.selection_valid(),
            r == Err::<(), GraphError>(GraphError::MissingConnectionNode) <==> self.zoom >= 1
                && self.geometry_bounded() && self.ids_unique() && self.selection_valid()
                && !self.connection_nodes_exist(),
            r == Err::<(), GraphError>(GraphError::ConnectionIndexOutOfRange) <==> self.zoom >= 1
                && self.geometry_bounded() && self.ids_unique() && self.selection_valid()
                && self.connection_nodes_exist() && !self.connections_valid(),
    {
        if self.zoom < 1 {
            return Err(GraphError::NonPositiveZoom);
        }
        if !(self.pan.x >= -crate::geom::PAN_LIMIT && self.pan.x <= crate::geom::PAN_LIMIT
            && self.pan.y >= -crate::geom::PAN_LIMIT && self.pan.y <= crate::geom::PAN_LIMIT) {
            return Err(GraphError::PanOutOfBounds);
        }
        let n = self.nodes.len();
        let mut i: usize = 0;
        while i < n
            invariant
                n == self.nodes@.len(),
                i <= n,
                forall|k: int| 0 <= k < i ==> (#[trigger] self.nodes@[k].pos).in_bounds(),
            decreases n - i,
        {
            let p = self.nodes[i].pos;
            if !(p.x >= -crate::geom::COORD_LIMIT && p.x <= crate::geom::COORD_LIMIT
                && p.y >= -crate::geom::COORD_LIMIT && p.y <= crate::geom::COORD_LIMIT) {
                return Err(GraphError::NodePositionOutOfBounds);
            }
            i = i + 1;
        }
        let mut i: usize = 0;
        while i < n
            invariant
                n == self.nodes@.len(),
                i <= n,
                forall|a: int, b: int|
                    0 <= a < b < i ==> #[trigger] self.nodes@[a].id != #[trigger] self.nodes@[b].id,
            decreases n - i,
        {
            let mut j: usize = 0;
            while j < i
                invariant
                    n == self.nodes@.len(),
                    i < n,
                    j <= i,
                    forall|k: int| 0 <= k < j ==> #[trigger] self.nodes@[k].id != self.nodes@[i as int].id,
                decreases i - j,
            {
                if self.nodes[j].id == self.nodes[i].id {
                    return Err(GraphError::DuplicateNodeId);
                }
                j = j + 1;
            }
            i = i + 1;
        }
        match self.selected_node_id {
            Some(sel) => {
                if self.node_index(sel).is_none() {
                    return Err(GraphError::MissingSelectedNode);
                }
            },
            None => {},
        }
        let mut i: usize = 0;
        while i < n
            invariant
                n == self.nodes@.len(),
                i <= n,
                forall|a: int, b: int|
                    0 <= a < i && 0 <= b < self.nodes@[a].inputs@.len()
                        && #[trigger] self.nodes@[a].inputs@[b].connection is Some
                        ==> self.has_node(self.nodes@[a].inputs@[b].connection->Some_0.node_id),
            decreases n - i,
        {
            let m = self.nodes[i].inputs.len();
            let mut j: usize = 0;
            while j < m
                invariant
                    n == self.nodes@.len(),
                    i < n,
                    m == self.nodes@[i as int].inputs@.len(),
                    j <= m,
                    forall|b: int|
                        0 <= b < j && #[trigger] self.nodes@[i as int].inputs@[b].connection is Some
                            ==> self.has_node(
                            self.nodes@[i as int].inputs@[b].connection->Some_0.node_id,
                        ),
                decreases m - j,
            {
                match self.nodes[i].inputs[j].connection {
                    Some(c) => {
                        if self.node_index(c.node_id).is_none() {
                            return Err(GraphError::MissingConnectionNode);
                        }
                    },
                    None => {},
                }
                j = j + 1;
            }
            i = i + 1;
        }
        let mut i: usize = 0;
        while i < n
            invariant
                n == self.nodes@.len(),
                i <= n,
                self.connection_nodes_exist(),
                self.ids_unique(),
                forall|a: int, b: int|
                    0 <= a < i && 0 <= b < self.nodes@[a].inputs@.len()
                        && #[trigger] self.nodes@[a].inputs@[b].connection is Some
                        ==> self.connection_valid(self.nodes@[a].inputs@[b].connection->Some_0),
            decreases n - i,
        {
            let m = self.nodes[i].inputs.len();
            let mut j: usize = 0;
            while j < m
                invariant
                    n == self.nodes@.len(),
                    i < n,
                    m == self.nodes@[i as int].inputs@.len(),
                    j <= m,
                    self.connection_nodes_exist(),
                    self.ids_unique(),
                    forall|b: int|
                        0 <= b < j && #[trigger] self.nodes@[i as int].inputs@[b].connection is Some
                            ==> self.connection_valid(
                            self.nodes@[i as int].inputs@[b].connection->Some_0,
                        ),
                decreases m - j,
            {
                match self.nodes[i].inputs[j].connection {
                    Some(c) => {
                        match self.node_index(c.node_id) {
                            Some(k) => {
                                if c.output_index >= self.nodes[k].outputs.len() {
                                    proof {
                                        lemma_unique_index_valid(*self, c, k as int);
                                    }
                                    return Err(GraphError::ConnectionIndexOutOfRange);
                                }
                            },
                            None => {
                                assert(false);
                            },
                        }
                    },
                    None => {},
                }
                j = j + 1;
            }
            i = i + 1;
        }
        Ok(())
    }
}

/// Largest number of input or output ports a node may carry.
pub const MAX_PORTS: usize = 10_000;

/// A node with a permitted number of ports.
pub open spec fn ports_bounded(node: Node) -> bool {
    node.inputs@.len() <= MAX_PORTS && node.outputs@.len() <= MAX_PORTS
}

impl Graph {
    /// What the gesture engine asks of the graph it edits: a clamped
    /// zoom, bounded geometry, unique identifiers, a resolvable
    /// selection, valid connections and bounded port counts. Every
    /// engine operation preserves it.
    pub open spec fn engine_wf(self) -> bool {
        &&& crate::geom::MIN_ZOOM <= self.zoom <= crate::geom::MAX_ZOOM
        &&& self.geometry_bounded()
        &&& self.ids_unique()
        &&& self.selection_valid()
        &&& self.connections_valid()
        &&& forall|i: int| 0 <= i < self.nodes@.len() ==> ports_bounded(#[trigger] self.nodes@[i])
    }
}

/// `b` carries exactly the nodes of `a`, by identifier and position in
/// the list.
pub open spec fn same_node_ids(a: Graph, b: Graph) -> bool {
    &&& b.nodes@.len() == a.nodes@.len()
    &&& forall|i: int| 0 <= i < a.nodes@.len() ==> (#[trigger] b.nodes@[i]).id == a.nodes@[i].id
}

/// Every input of `b` stores exactly the connection it stored in `a`.
pub open spec fn same_connections(a: Graph, b: Graph) -> bool {
    &&& b.nodes@.len() == a.nodes@.len()
    &&& forall|i: int|
        0 <= i < a.nodes@.len() ==> (#[trigger] b.nodes@[i]).inputs@.len()
            == a.nodes@[i].inputs@.len()
    &&& forall|i: int, j: int|
        0 <= i < a.nodes@.len() && 0 <= j < a.nodes@[i].inputs@.len()
            ==> (#[trigger] b.nodes@[i].inputs@[j]).connection == a.nodes@[i].inputs@[j].connection
}

/// A graph whose nodes keep their identifiers, port counts, positions in
/// bounds and only valid connections stays valid: the structural
/// invariants carry over node by node.
pub proof fn lemma_structure_preserves_validity(a: Graph, b: Graph)
    requires
        a.ids_unique(),
        a.selection_valid(),
        forall|i: int| 0 <= i < a.nodes@.len() ==> ports_bounded(#[trigger] a.nodes@[i]),
        crate::geom::MIN_ZOOM <= b.zoom <= crate::geom::MAX_ZOOM,
        b.pan.pan_bounded(),
        b.selected_node_id == a.selected_node_id || b.selected_node_id is None,
        b.nodes@.len() == a.nodes@.len(),
        forall|i: int|
            0 <= i < a.nodes@.len() ==> (#[trigger] b.nodes@[i]).id == a.nodes@[i].id
                && b.nodes@[i].outputs@.len() == a.nodes@[i].outputs@.len()
                && b.nodes@[i].inputs@.len() == a.nodes@[i].inputs@.len()
                && b.nodes@[i].pos.in_bounds(),
        forall|i: int, j: int|
            0 <= i < b.nodes@.len() && 0 <= j < b.nodes@[i].inputs@.len()
                && #[trigger] b.nodes@[i].inputs@[j].connection is Some ==> a.connection_valid(
                b.nodes@[i].inputs@[j].connection->Some_0,
            ),
    ensures
        b.engine_wf(),
{
    assert forall|i: int, j: int|
        0 <= i < b.nodes@.len() && 0 <= j < b.nodes@[i].inputs@.len()
            && #[trigger] b.nodes@[i].inputs@[j].connection is Some implies b.connection_valid(
        b.nodes@[i].inputs@[j].connection->Some_0,
    ) by {
        let c = b.nodes@[i].inputs@[j].connection->Some_0;
        assert(a.connection_valid(c));
        let w = choose|w: int|
            0 <= w < a.nodes@.len() && #[trigger] a.nodes@[w].id == c.node_id && c.output_index
                < a.nodes@[w].outputs@.len();
        assert(b.nodes@[w].id == c.node_id && c.output_index < b.nodes@[w].outputs@.len());
    }
    match b.selected_node_id {
        Some(s) => {
            assert(a.selected_node_id == Some(s));
            assert(a.has_node(s));
            let w = choose|w: int| 0 <= w < a.nodes@.len() && #[trigger] a.nodes@[w].id == s;
            assert(b.nodes@[w].id == s);
        },
        None => {},
    }
}

/// Removing a node as `remove_node` does keeps the graph valid: the
/// survivors keep their structure, scrubbed connections vanish, and the
/// rest still resolve. Afterwards no node carries the removed
/// identifier.
pub proof fn lemma_removal_preserves_validity(a: Graph, b: Graph, id: NodeId)
    requires
        a.ids_unique(),
        a.selection_valid(),
        a.connections_valid(),
        a.geometry_bounded(),
        forall|i: int| 0 <= i < a.nodes@.len() ==> ports_bounded(#[trigger] a.nodes@[i]),
        crate::geom::MIN_ZOOM <= a.zoom <= crate::geom::MAX_ZOOM,
        a.has_node(id),
        b.pan == a.pan,
        b.zoom == a.zoom,
        b.selected_node_id == (if a.selected_node_id == Some(id) {
            None::<NodeId>
        } else {
            a.selected_node_id
        }),
        b.nodes@.len() == a.nodes@.len() - 1,
        forall|i: int|
            0 <= i < a.node_index_spec(id) ==> node_scrubbed(
                a.nodes@[i],
                #[trigger] b.nodes@[i],
                id,
            ),
        forall|i: int|
            a.node_index_spec(id) <= i < b.nodes@.len() ==> node_scrubbed(
                a.nodes@[i + 1],
                #[trigger] b.nodes@[i],
                id,
            ),
    ensures
        b.engine_wf(),
        !b.has_node(id),
{
    let k = a.node_index_spec(id);
    assert(0 <= k < a.nodes@.len() && a.nodes@[k].id == id);
    assert forall|i: int| 0 <= i < b.nodes@.len() implies node_scrubbed(
        a.nodes@[if i < k {
            i
        } else {
            i + 1
        }],
        #[trigger] b.nodes@[i],
        id,
    ) && (if i < k {
        i
    } else {
        i + 1
    }) != k by {}
    assert forall|i: int, j: int|
        0 <= i < j < b.nodes@.len() implies #[trigger] b.nodes@[i].id != #[trigger] b.nodes@[j].id by {
        let fi = if i < k {
            i
        } else {
            i + 1
        };
        let fj = if j < k {
            j
        } else {
            j + 1
        };
        assert(b.nodes@[i].id == a.nodes@[fi].id);
        assert(b.nodes@[j].id == a.nodes@[fj].id);
        assert(fi < fj);
        assert(a.nodes@[fi].id != a.nodes@[fj].id);
    }
    assert forall|i: int| 0 <= i < b.nodes@.len() implies #[trigger] b.nodes@[i].id != id by {
        let fi = if i < k {
            i
        } else {
            i + 1
        };
        assert(b.nodes@[i].id == a.nodes@[fi].id);
        if fi < k {
            assert(a.nodes@[fi].id != a.nodes@[k].id);
        } else {
            assert(a.nodes@[k].id != a.nodes@[fi].id);
        }
    }
    assert forall|i: int, j: int|
        0 <= i < b.nodes@.len() && 0 <= j < b.nodes@[i].inputs@.len()
            && #[trigger] b.nodes@[i].inputs@[j].connection is Some implies b.connection_valid(
        b.nodes@[i].inputs@[j].connection->Some_0,
    ) by {
        let fi = if i < k {
            i
        } else {
            i + 1
        };
        assert(node_scrubbed(a.nodes@[fi], b.nodes@[i], id));
        assert(input_scrubbed(a.nodes@[fi].inputs@[j], b.nodes@[i].inputs@[j], id));
        let c = b.nodes@[i].inputs@[j].connection->Some_0;
        assert(a.nodes@[fi].inputs@[j].connection == Some(c));
        assert(c.node_id != id);
        assert(a.connection_valid(c));
        let w = choose|w: int|
            0 <= w < a.nodes@.len() && #[trigger] a.nodes@[w].id == c.node_id && c.output_index
                < a.nodes@[w].outputs@.len();
        assert(w != k);
        let bw = if w < k {
            w
        } else {
            w - 1
        };
        assert(node_scrubbed(a.nodes@[w], b.nodes@[bw], id));
        assert(b.nodes@[bw].id == c.node_id && c.output_index < b.nodes@[bw].outputs@.len());
    }
    match b.selected_node_id {
        Some(s) => {
            assert(a.selected_node_id == Some(s) && s != id);
            assert(a.has_node(s));
            let w = choose|w: int| 0 <= w < a.nodes@.len() && #[trigger] a.nodes@[w].id == s;
            assert(w != k);
            let bw = if w < k {
                w
            } else {
                w - 1
            };
            assert(node_scrubbed(a.nodes@[w], b.nodes@[bw], id));
            assert(b.nodes@[bw].id == s);
        },
        None => {},
    }
    assert forall|i: int| 0 <= i < b.nodes@.len() implies (#[trigger] b.nodes@[i].pos).in_bounds()
        && ports_bounded(b.nodes@[i]) by {
        let fi = if i < k {
            i
        } else {
            i + 1
        };
        assert(node_scrubbed(a.nodes@[fi], b.nodes@[i], id));
        assert(ports_bounded(a.nodes@[fi]));
    }
}

/// `b` is `a` with any connection sourced at `id` cleared and everything
/// else kept.
pub open spec fn input_scrubbed(a: Input, b: Input, id: NodeId) -> bool {
    &&& b.name == a.name
    &&& b.connection == (match a.connection {
        Some(c) => if c.node_id == id {
            None
        } else {
            Some(c)
        },
        None => None::<Connection>,
    })
}

/// `b` is `a` with its inputs scrubbed of connections sourced at `id`.
pub open spec fn node_scrubbed(a: Node, b: Node, id: NodeId) -> bool {
    &&& b.id == a.id
    &&& b.name == a.name
    &&& b.pos == a.pos
    &&& b.outputs == a.outputs
    &&& b.cache_output == a.cache_output
    &&& b.has_cached_output == a.has_cached_output
    &&& b.terminal == a.terminal
    &&& b.inputs@.len() == a.inputs@.len()
    &&& forall|j: int|
        0 <= j < a.inputs@.len() ==> input_scrubbed(#[trigger] a.inputs@[j], b.inputs@[j], id)
}

impl Graph {
    /// Set the selection. The identifier must come from observed
    /// geometry: the node has to exist.
    pub fn select_node(&mut self, node_id: NodeId)
        requires
            old(self).has_node(node_id),
        ensures
            *final(self) == (Graph { selected_node_id: Some(node_id), ..*old(self) }),
    {
        self.selected_node_id = Some(node_id);
    }

    /// Remove the node carrying `node_id`, clear a selection that pointed
    /// at it, and scrub every remaining input's connection that referenced
    /// it, atomically. Afterwards no remaining connection references the
    /// removed identifier.
    #[verifier::loop_isolation(false)]
    pub fn remove_node(&mut self, node_id: NodeId)
        requires
            old(self).has_node(node_id),
            old(self).ids_unique(),
        ensures
            final(self).id == old(self).id,
            final(self).pan == old(self).pan,
            final(self).zoom == old(self).zoom,
            final(self).selected_node_id == (if old(self).selected_node_id == Some(node_id) {
                None::<NodeId>
            } else {
                old(self).selected_node_id
            }),
            final(self).nodes@.len() == old(self).nodes@.len() - 1,
            forall|i: int|
                0 <= i < old(self).node_index_spec(node_id) ==> node_scrubbed(
                    old(self).nodes@[i],
                    #[trigger] final(self).nodes@[i],
                    node_id,
                ),
            forall|i: int|
                old(self).node_index_spec(node_id) <= i < final(self).nodes@.len()
                    ==> node_scrubbed(old(self).nodes@[i + 1], #[trigger] final(self).nodes@[i], node_id),
            forall|i: int, j: int|
                0 <= i < final(self).nodes@.len() && 0 <= j < final(self).nodes@[i].inputs@.len()
                    && #[trigger] final(self).nodes@[i].inputs@[j].connection is Some
                    ==> final(self).nodes@[i].inputs@[j].connection->Some_0.node_id != node_id,
    {
        let k = match self.node_index(node_id) {
            Some(k) => k,
            None => {
                proof {
                    assert(false);
                }
                0
            },
        };
        proof {
            let ghost w = self.node_index_spec(node_id);
            assert(0 <= w < self.nodes@.len() && self.nodes@[w].id == node_id);
            if w != k as int {
                if w < k as int {
                    assert(self.nodes@[w].id != self.nodes@[k as int].id);
                } else {
                    assert(self.nodes@[k as int].id != self.nodes@[w].id);
                }
            }
        }
        self.nodes.remove(k);
        match self.selected_node_id {
            Some(sel) => {
                if sel == node_id {
                    self.selected_node_id = None;
                }
            },
            None => {},
        }
        let ghost mid = *self;
        let n = self.nodes.len();
        let mut i: usize = 0;
        while i < n
            invariant
                n == self.nodes@.len(),
                i <= n,
                self.id == mid.id,
                self.pan == mid.pan,
                self.zoom == mid.zoom,
                self.selected_node_id == mid.selected_node_id,
                forall|a: int| 0 <= a < i ==> node_scrubbed(mid.nodes@[a], #[trigger] self.nodes@[a], node_id),
                forall|a: int| i <= a < n ==> #[trigger] self.nodes@[a] == mid.nodes@[a],
            decreases n - i,
        {
            let m = self.nodes[i].inputs.len();
            let mut j: usize = 0;
            while j < m
                invariant
                    n == self.nodes@.len(),
                    i < n,
                    m == self.nodes@[i as int].inputs@.len(),
                    j <= m,
                    self.id == mid.id,
                    self.pan == mid.pan,
                    self.zoom == mid.zoom,
                    self.selected_node_id == mid.selected_node_id,
                    self.nodes@[i as int].id == mid.nodes@[i as int].id,
                    self.nodes@[i as int].name == mid.nodes@[i as int].name,
                    self.nodes@[i as int].pos == mid.nodes@[i as int].pos,
                    self.nodes@[i as int].outputs == mid.nodes@[i as int].outputs,
                    self.nodes@[i as int].cache_output == mid.nodes@[i as int].cache_output,
                    self.nodes@[i as int].has_cached_output == mid.nodes@[i as int].has_cached_output,
                    self.nodes@[i as int].terminal == mid.nodes@[i as int].terminal,
                    forall|a: int|
                        0 <= a < i ==> node_scrubbed(mid.nodes@[a], #[trigger] self.nodes@[a], node_id),
                    forall|a: int| i < a < n ==> #[trigger] self.nodes@[a] == mid.nodes@[a],
                    forall|b: int|
                        0 <= b < j ==> input_scrubbed(
                            #[trigger] mid.nodes@[i as int].inputs@[b],
                            self.nodes@[i as int].inputs@[b],
                            node_id,
                        ),
                    forall|b: int|
                        j <= b < m ==> #[trigger] self.nodes@[i as int].inputs@[b]
                            == mid.nodes@[i as int].inputs@[b],
                decreases m - j,
            {
                let clear = match self.nodes[i].inputs[j].connection {
                    Some(c) => c.node_id == node_id,
                    None => false,
                };
                if clear {
                    self.nodes[i].inputs[j].connection = None;
                }
                j = j + 1;
            }
            i = i + 1;
        }
        proof {
            let ghost k0 = old(self).node_index_spec(node_id);
            assert(0 <= k0 < old(self).nodes@.len() && old(self).nodes@[k0].id == node_id);
            if k0 != k as int {
                if k0 < k as int {
                    assert(old(self).nodes@[k0].id != old(self).nodes@[k as int].id);
                } else {
                    assert(old(self).nodes@[k as int].id != old(self).nodes@[k0].id);
                }
            }
            assert forall|a: int, b: int|
                0 <= a < self.nodes@.len() && 0 <= b < self.nodes@[a].inputs@.len()
                    && #[trigger] self.nodes@[a].inputs@[b].connection is Some implies self.nodes@[a].inputs@[b].connection->Some_0.node_id
                != node_id by {
                assert(node_scrubbed(mid.nodes@[a], self.nodes@[a], node_id));
                assert(input_scrubbed(mid.nodes@[a].inputs@[b], self.nodes@[a].inputs@[b], node_id));
            }
        }
    }
}

/// Relies on uuid::Uuid::new_v4 for a fresh random identifier, and on its
/// hyphenated `Display` form for the default node name. The generator
/// masks in the version and variant fields, so those bits of the value
/// are fixed and the value is never zero.
#[verifier::external_body]
fn fresh_uuid() -> (r: (u128, String))
    ensures
        r.0 & 0xF000_C000_0000_0000_0000 == 0x4000_8000_0000_0000_0000,
        r.0 != 0,
{
    let id = uuid::Uuid::new_v4();
    (id.as_u128(), format!("Node {id}"))
}

impl Default for Node {
    /// A fresh node: random identifier, a name derived from it, origin
    /// position, no ports, all flags off.
    fn default() -> (r: Node)
        ensures
            r.id != 0,
            r.pos == (Vec2i { x: 0, y: 0 }),
            r.inputs@.len() == 0,
            r.outputs@.len() == 0,
            !r.cache_output,
            !r.has_cached_output,
            !r.terminal,
    {
        let fresh = fresh_uuid();
        Node {
            id: fresh.0,
            name: fresh.1,
            pos: Vec2i::zero(),
            inputs: Vec::new(),
            outputs: Vec::new(),
            cache_output: false,
            has_cached_output: false,
            terminal: false,
        }
    }
}

impl Default for Graph {
    /// An empty graph with the camera at rest: no nodes, unit zoom, zero
    /// pan, nothing selected. Such a graph is valid.
    fn default() -> (r: Graph)
        ensures
            r.id != 0,
            r.nodes@.len() == 0,
            r.pan == (Vec2i { x: 0, y: 0 }),
            r.zoom == crate::geom::ZOOM_ONE,
            r.selected_node_id is None,
            r.valid_spec(),
    {
        let fresh = fresh_uuid();
        Graph {
            id: fresh.0,
            nodes: Vec::new(),
            pan: Vec2i::zero(),
            zoom: crate::geom::ZOOM_ONE,
            selected_node_id: None,
        }
    }
}

impl Graph {
    /// The canonical five-node sample: two source values, a sum consuming
    /// both, a divide consuming the sum and the second source, and a
    /// terminal output consuming the divide. The result is valid.
    pub fn test_graph() -> (r: Graph)
        ensures
            r.valid_spec(),
            r.nodes@.len() == 5,
            r.pan == (Vec2i { x: 0, y: 0 }),
            r.zoom == crate::geom::ZOOM_ONE,
            r.selected_node_id is None,
            r.nodes@[0].id == 1 && r.nodes@[0].inputs@.len() == 0 && r.nodes@[0].outputs@.len()
                == 1,
            r.nodes@[1].id == 2 && r.nodes@[1].inputs@.len() == 0 && r.nodes@[1].outputs@.len()
                == 1,
            r.nodes@[2].id == 3 && r.nodes@[2].inputs@.len() == 2 && r.nodes@[2].outputs@.len()
                == 1,
            r.nodes@[3].id == 4 && r.nodes@[3].inputs@.len() == 2 && r.nodes@[3].outputs@.len()
                == 1,
            r.nodes@[4].id == 5 && r.nodes@[4].inputs@.len() == 1 && r.nodes@[4].outputs@.len()
                == 0 && r.nodes@[4].terminal,
            r.nodes@[2].inputs@[0].connection == Some(Connection { node_id: 1, output_index: 0 }),
            r.nodes@[2].inputs@[1].connection == Some(Connection { node_id: 2, output_index: 0 }),
            r.nodes@[3].inputs@[0].connection == Some(Connection { node_id: 3, output_index: 0 }),
            r.nodes@[3].inputs@[1].connection == Some(Connection { node_id: 2, output_index: 0 }),
            r.nodes@[4].inputs@[0].connection == Some(Connection { node_id: 4, output_index: 0 }),
            r.nodes@[0].name@ == "value_a"@ && r.nodes@[0].pos == (Vec2i { x: 80_000, y: 120_000 }),
            r.nodes@[1].name@ == "value_b"@ && r.nodes@[1].pos == (Vec2i { x: 80_000, y: 260_000 }),
            r.nodes@[2].name@ == "math(sum)"@ && r.nodes@[2].pos == (Vec2i {
                x: 320_000,
                y: 180_000,
            }),
            r.nodes@[3].name@ == "math(divide)"@ && r.nodes@[3].pos == (Vec2i {
                x: 560_000,
                y: 180_000,
            }),
            r.nodes@[4].name@ == "output"@ && r.nodes@[4].pos == (Vec2i { x: 800_000, y: 180_000 }),
    {
        let value_a_id: NodeId = 1;
        let value_b_id: NodeId = 2;
        let sum_id: NodeId = 3;
        let divide_id: NodeId = 4;
        let output_id: NodeId = 5;

        let value_a = Node {
            id: value_a_id,
            name: String::from_str("value_a"),
            pos: Vec2i::new(80_000, 120_000),
            inputs: Vec::new(),
            outputs: vec![Output { name: String::from_str("value") }],
            cache_output: true,
            has_cached_output: true,
            terminal: false,
        };

        let value_b = Node {
            id: value_b_id,
            name: String::from_str("value_b"),
            pos: Vec2i::new(80_000, 260_000),
            inputs: Vec::new(),
            outputs: vec![Output { name: String::from_str("value") }],
            cache_output: true,
            has_cached_output: true,
            terminal: false,
        };

        let sum = Node {
            id: sum_id,
            name: String::from_str("math(sum)"),
            pos: Vec2i::new(320_000, 180_000),
            inputs: vec![
                Input {
                    name: String::from_str("a"),
                    connection: Some(Connection { node_id: value_a_id, output_index: 0 }),
                },
                Input {
                    name: String::from_str("b"),
                    connection: Some(Connection { node_id: value_b_id, output_index: 0 }),
                },
            ],
            outputs: vec![Output { name: String::from_str("sum") }],
            cache_output: false,
            has_cached_output: false,
            terminal: false,
        };

        let divide = Node {
            id: divide_id,
            name: String::from_str("math(divide)"),
            pos: Vec2i::new(560_000, 180_000),
            inputs: vec![
                Input {
                    name: String::from_str("sum"),
                    connection: Some(Connection { node_id: sum_id, output_index: 0 }),
                },
                Input {
                    name: String::from_str("b"),
                    connection: Some(Connection { node_id: value_b_id, output_index: 0 }),
                },
            ],
            outputs: vec![Output { name: String::from_str("divide") }],
            cache_output: false,
            has_cached_output: false,
            terminal: false,
        };

        let output = Node {
            id: output_id,
            name: String::from_str("output"),
            pos: Vec2i::new(800_000, 180_000),
            inputs: vec![
                Input {
                    name: String::from_str("value"),
                    connection: Some(Connection { node_id: divide_id, output_index: 0 }),
                },
            ],
            outputs: Vec::new(),
            cache_output: false,
            has_cached_output: false,
            terminal: true,
        };

        let graph = Graph {
            id: 6,
            nodes: vec![value_a, value_b, sum, divide, output],
            pan: Vec2i::zero(),
            zoom: crate::geom::ZOOM_ONE,
            selected_node_id: None,
        };
        proof {
            assert(graph.nodes@[0].id == 1);
            assert(graph.nodes@[1].id == 2);
            assert(graph.nodes@[2].id == 3);
            assert(graph.nodes@[3].id == 4);
            assert(graph.nodes@[4].id == 5);
            assert(graph.geometry_bounded());
            assert(graph.ids_unique());
            assert(graph.connections_valid());
        }
        graph
    }
}

/// With unique identifiers, a connection is valid exactly when the
/// output index fits at the one node that carries its identifier.
proof fn lemma_unique_index_valid(g: Graph, c: Connection, k: int)
    requires
        g.ids_unique(),
        0 <= k < g.nodes@.len(),
        g.nodes@[k].id == c.node_id,
        c.output_index >= g.nodes@[k].outputs@.len(),
    ensures
        !g.connection_valid(c),
{
    assert forall|i: int|
        0 <= i < g.nodes@.len() && #[trigger] g.nodes@[i].id == c.node_id implies i == k by {
        if i != k {
            if i < k {
                assert(g.nodes@[i].id != g.nodes@[k].id);
            } else {
                assert(g.nodes@[k].id != g.nodes@[i].id);
            }
        }
    }
}

} // verus!
