//! Compiling a model into a thermal RC network.
//!
//! Zones become nodes; a simple boundary becomes one edge between its zones; a
//! layered boundary of `n` layers becomes a chain of `n + 1` nodes and `n + 2`
//! edges from its first zone to its second.

use crate::graph::{
    add_edge, add_node, get_markers, graph_edges, graph_nodes, insert_marker, marker_entries,
    new_graph, new_marker_map, MarkerMap,
};
use crate::lookup::{entry_names, first_index, get, lemma_first_index};
use crate::model::{
    layer_capacity, layer_capacity_spec, layer_conductance_spec, BoundaryLayer, BoundaryType,
    Material, Model, Zone, MAX_LAYER_CAPACITY,
};
use crate::units::{
    bounded, lemma_mul_bound, lemma_mul_spec_bound, mul_fixed, mul_spec, Area, HeatCapacity,
    HeatTransfer, ThermalConductance, Velocity, MAX_MAGNITUDE,
};
use petgraph::graph::UnGraph;
use vstd::prelude::*;

verus! {

/// A thermal mass.
#[derive(Debug, PartialEq)]
pub struct Node {
    /// The zone this node stands for, if any.
    pub zone_name: Option<String>,
    /// The `(zone, marker)` tag of an addressable interface inside a boundary.
    pub marker: Option<(String, String)>,
    pub heat_capacity: HeatCapacity,
    /// Groups nodes belonging to the same boundary, only for display.
    pub boundary_group_index: Option<usize>,
}

/// A thermal conductance between two nodes.
#[derive(Clone, Copy, Debug, PartialEq)]
pub struct Edge {
    pub conductance: ThermalConductance,
}

/// The network built from a model, with its lookup tables.
pub struct RcNetwork {
    pub graph: UnGraph<Node, Edge>,
    /// Zone names and the indices of their nodes.
    pub zone_indices: Vec<(String, usize)>,
    /// Mapping of (zone name, marker) pairs to node indices.
    pub marker_indices: MarkerMap,
}

// ---------------------------------------------------------------------------
// Convection and series conductance

/// Integer square root.
pub open spec fn is_isqrt(n: int, r: int) -> bool {
    0 <= r && r * r <= n < (r + 1) * (r + 1)
}

/// Convective heat transfer coefficient of a surface in air, in µW/(m²·K), for a
/// wind speed of `v` µm/s: 12.12 − 1.16·v + 11.6·√v W/(m²·K), or zero where the
/// formula goes below zero (speeds above 104 m/s).
pub open spec fn convection_spec(v: int, root: int) -> int {
    let plus = 12_120_000 + 116 * root / 10;
    let minus = 116 * v / 100;
    if minus >= plus {
        0
    } else {
        plus - minus
    }
}

/// Film coefficient at rest, in µW/(m²·K).
pub const STILL_AIR_FILM: u64 = 12_120_000;

fn isqrt(n: u64) -> (r: u64)
    ensures
        is_isqrt(n as int, r as int),
{
    let mut lo: u64 = 0;
    let mut hi: u64 = 4_294_967_296;
    assert(4_294_967_296 * 4_294_967_296 > u64::MAX) by (nonlinear_arith);
    while hi - lo > 1
        invariant
            lo < hi <= 4_294_967_296,
            lo * lo <= n,
            n < hi * hi,
        decreases hi - lo,
    {
        let mid = lo + (hi - lo) / 2;
        assert(mid * mid <= 4_294_967_295 * 4_294_967_295) by (nonlinear_arith)
            requires
                mid < 4_294_967_296,
        ;
        if mid * mid <= n {
            lo = mid;
        } else {
            hi = mid;
        }
    }
    assert(hi == lo + 1);
    lo
}

/// Return thermal conductance of a surface in air.
/// Based on https://www.engineeringtoolbox.com/convective-heat-transfer-d_430.html
pub fn air_convection_conductance(wind_speed: Velocity) -> (r: HeatTransfer)
    requires
        bounded(wind_speed.micro),
    ensures
        exists|root: int|
            is_isqrt(wind_speed.micro * 1_000_000, root) && r.micro == convection_spec(
                wind_speed.micro as int,
                root,
            ),
        wind_speed.micro == 0 ==> r.micro == STILL_AIR_FILM,
{
    let root = isqrt(wind_speed.micro * 1_000_000);
    assert(root <= 1_000_000_000) by (nonlinear_arith)
        requires
            root * root <= wind_speed.micro * 1_000_000,
            wind_speed.micro <= 1_000_000_000_000,
    ;
    if wind_speed.micro == 0 {
        assert(root == 0) by (nonlinear_arith)
            requires
                root * root <= 0,
        ;
    }
    let plus = 12_120_000 + 116 * root / 10;
    let minus = 116 * wind_speed.micro / 100;
    let r = if minus >= plus {
        HeatTransfer { micro: 0 }
    } else {
        HeatTransfer { micro: plus - minus }
    };
    assert(r.micro == convection_spec(wind_speed.micro as int, root as int));
    assert(is_isqrt(wind_speed.micro * 1_000_000, root as int));
    r
}

/// Conductance of a film, a slab and a second identical film in series:
/// 1 / (1/f + 1/u + 1/f), zero where either is zero.
pub open spec fn series_spec(film: int, through: int) -> int {
    if film + 2 * through == 0 {
        0
    } else {
        film * through / (film + 2 * through)
    }
}

fn series_conductance(film: u128, through: u128) -> (r: u128)
    requires
        film <= 100_000_000_000_000_000_000,
        through <= 1_000_000_000_000_000_000,
    ensures
        r == series_spec(film as int, through as int),
{
    if film + 2 * through == 0 {
        0
    } else {
        proof {
            lemma_mul_bound(
                film as int,
                through as int,
                100_000_000_000_000_000_000,
                1_000_000_000_000_000_000,
            );
        }
        film * through / (film + 2 * through)
    }
}

// ---------------------------------------------------------------------------
// What the network is

/// Conductance of the air film over `area`.
pub open spec fn film_spec(area: Area) -> int {
    mul_spec(STILL_AIR_FILM as int, area.micro as int)
}

pub open spec fn zone_node_spec(z: Zone, air: Material) -> Node {
    Node {
        zone_name: Some(z.name),
        marker: None,
        heat_capacity: z.heat_capacity_spec(air),
        boundary_group_index: None,
    }
}

pub open spec fn zone_nodes(m: Model) -> Seq<Node> {
    m.zones@.map_values(|z: Zone| zone_node_spec(z, m.materials@[m.air as int]))
}

pub open spec fn layer_cap(materials: Seq<Material>, area: Area, l: BoundaryLayer) -> int {
    let mat = materials[l.material as int];
    layer_capacity_spec(
        area.micro,
        l.thickness.micro,
        mat.density.micro,
        mat.specific_heat_capacity.micro,
    )
}

pub open spec fn layer_cond(materials: Seq<Material>, area: Area, l: BoundaryLayer) -> ThermalConductance {
    layer_conductance_spec(materials[l.material as int].thermal_conductivity.micro, area.micro, l.thickness.micro)
}

/// Capacity of node `k` of a chain: the upper half of the layer before it plus
/// the lower half of the layer after it (a layer's odd microjoule goes to its
/// upper half).
pub open spec fn chain_capacity(
    materials: Seq<Material>,
    area: Area,
    layers: Seq<BoundaryLayer>,
    k: int,
) -> int {
    (if k > 0 {
        let c = layer_cap(materials, area, layers[k - 1]);
        c - c / 2
    } else {
        0
    }) + (if k < layers.len() {
        layer_cap(materials, area, layers[k]) / 2
    } else {
        0
    })
}

/// Marker of node `k` of a chain: the initial marker, then each layer's
/// following marker.
pub open spec fn chain_marker(layers: Seq<BoundaryLayer>, initial: Option<String>, k: int) -> Option<String> {
    if k == 0 {
        initial
    } else {
        layers[k - 1].following_marker
    }
}

pub open spec fn tag(zone: String, marker: Option<String>) -> Option<(String, String)> {
    match marker {
        Some(x) => Some((zone, x)),
        None => None,
    }
}

pub open spec fn chain_node(
    materials: Seq<Material>,
    zone: String,
    area: Area,
    layers: Seq<BoundaryLayer>,
    initial: Option<String>,
    group: int,
    k: int,
) -> Node {
    Node {
        zone_name: None,
        marker: tag(zone, chain_marker(layers, initial, k)),
        heat_capacity: HeatCapacity::Finite(chain_capacity(materials, area, layers, k) as u128),
        boundary_group_index: Some(group as usize),
    }
}

/// The `n + 1` nodes of a layered boundary of `n` layers.
pub open spec fn chain_nodes(
    materials: Seq<Material>,
    zone: String,
    area: Area,
    layers: Seq<BoundaryLayer>,
    initial: Option<String>,
    group: int,
) -> Seq<Node> {
    Seq::new(
        (layers.len() + 1) as nat,
        |k: int| chain_node(materials, zone, area, layers, initial, group, k),
    )
}

pub open spec fn chain_edge(
    materials: Seq<Material>,
    zones: (usize, usize),
    area: Area,
    layers: Seq<BoundaryLayer>,
    base: int,
    k: int,
) -> (usize, usize, Edge) {
    let n = layers.len();
    let film = Edge { conductance: ThermalConductance::Finite(film_spec(area) as u128) };
    if k == 0 {
        (zones.0, base as usize, film)
    } else if k <= n {
        (
            (base + k - 1) as usize,
            (base + k) as usize,
            Edge { conductance: layer_cond(materials, area, layers[k - 1]) },
        )
    } else {
        ((base + n) as usize, zones.1, film)
    }
}

/// The `n + 2` edges of a layered boundary whose first node has index `base`:
/// film from the first zone, each layer's conductance, film to the second zone.
pub open spec fn chain_edges(
    materials: Seq<Material>,
    zones: (usize, usize),
    area: Area,
    layers: Seq<BoundaryLayer>,
    base: int,
) -> Seq<(usize, usize, Edge)> {
    Seq::new((layers.len() + 2) as nat, |k: int| chain_edge(materials, zones, area, layers, base, k))
}

pub open spec fn boundary_type_of(m: Model, i: int) -> BoundaryType {
    m.boundary_types@[m.boundaries@[i].boundary_type as int]
}

/// Number of layered boundaries among the first `k`.
pub open spec fn layered_count(m: Model, k: int) -> int
    decreases k,
{
    if k <= 0 {
        0
    } else {
        layered_count(m, k - 1) + if boundary_type_of(m, k - 1) is Layered {
            1int
        } else {
            0int
        }
    }
}

/// The nodes that boundary `i` adds.
pub open spec fn boundary_nodes(m: Model, i: int) -> Seq<Node> {
    let b = m.boundaries@[i];
    match boundary_type_of(m, i) {
        BoundaryType::Layered { layers, initial_marker, .. } => chain_nodes(
            m.materials@,
            m.zones@[b.zones.0 as int].name,
            b.area,
            layers@,
            initial_marker,
            layered_count(m, i),
        ),
        BoundaryType::Simple { .. } => Seq::empty(),
    }
}

/// The edges that boundary `i` adds, its first new node having index `base`.
pub open spec fn boundary_edges(m: Model, i: int, base: int) -> Seq<(usize, usize, Edge)> {
    let b = m.boundaries@[i];
    match boundary_type_of(m, i) {
        BoundaryType::Layered { layers, .. } => chain_edges(m.materials@, b.zones, b.area, layers@, base),
        BoundaryType::Simple { u, .. } => seq![
            (
                b.zones.0,
                b.zones.1,
                Edge {
                    conductance: ThermalConductance::Finite(
                        series_spec(film_spec(b.area), mul_spec(u.micro as int, b.area.micro as int))
                            as u128,
                    ),
                },
            ),
        ],
    }
}

/// The nodes once the first `k` boundaries are processed.
pub open spec fn nodes_after(m: Model, k: int) -> Seq<Node>
    decreases k,
{
    if k <= 0 {
        zone_nodes(m)
    } else {
        nodes_after(m, k - 1) + boundary_nodes(m, k - 1)
    }
}

/// The edges once the first `k` boundaries are processed.
pub open spec fn edges_after(m: Model, k: int) -> Seq<(usize, usize, Edge)>
    decreases k,
{
    if k <= 0 {
        Seq::empty()
    } else {
        edges_after(m, k - 1) + boundary_edges(m, k - 1, nodes_after(m, k - 1).len() as int)
    }
}

/// For each `(zone, marker)` tag, the indices of the nodes that carry it, in order.
pub open spec fn markers_of(nodes: Seq<Node>) -> Map<(Seq<char>, Seq<char>), Seq<usize>>
    decreases nodes.len(),
{
    if nodes.len() == 0 {
        Map::empty()
    } else {
        let prev = markers_of(nodes.drop_last());
        match nodes.last().marker {
            Some((z, x)) => {
                let key = (z@, x@);
                prev.insert(
                    key,
                    (if prev.contains_key(key) {
                        prev[key]
                    } else {
                        Seq::empty()
                    }).push((nodes.len() - 1) as usize),
                )
            },
            None => prev,
        }
    }
}

/// Nodes that boundary `i` adds: `n + 1` for a layered boundary of `n` layers.
pub open spec fn boundary_node_count(m: Model, i: int) -> int {
    match boundary_type_of(m, i) {
        BoundaryType::Layered { layers, .. } => layers@.len() + 1int,
        BoundaryType::Simple { .. } => 0,
    }
}

/// Edges that boundary `i` adds: `n + 2` for a layered boundary of `n` layers,
/// one for a simple boundary.
pub open spec fn boundary_edge_count(m: Model, i: int) -> int {
    match boundary_type_of(m, i) {
        BoundaryType::Layered { layers, .. } => layers@.len() + 2int,
        BoundaryType::Simple { .. } => 1,
    }
}

/// Zones plus the nodes of the first `k` boundaries.
pub open spec fn node_count(m: Model, k: int) -> int
    decreases k,
{
    if k <= 0 {
        m.zones@.len() as int
    } else {
        node_count(m, k - 1) + boundary_node_count(m, k - 1)
    }
}

/// The edges of the first `k` boundaries.
pub open spec fn edge_count(m: Model, k: int) -> int
    decreases k,
{
    if k <= 0 {
        0
    } else {
        edge_count(m, k - 1) + boundary_edge_count(m, k - 1)
    }
}

/// The model is small enough for the graph's 32-bit indices.
pub open spec fn fits_graph(m: Model) -> bool {
    &&& node_count(m, m.boundaries@.len() as int) < u32::MAX
    &&& edge_count(m, m.boundaries@.len() as int) < u32::MAX
}

impl RcNetwork {
    /// The network is the one that `model` compiles to.
    pub open spec fn built_from(&self, model: Model) -> bool {
        let k = model.boundaries@.len() as int;
        &&& graph_nodes(self.graph) == nodes_after(model, k)
        &&& graph_edges(self.graph) == edges_after(model, k)
        &&& marker_entries(self.marker_indices) == markers_of(graph_nodes(self.graph))
        &&& self.zone_indices@.len() == model.zones@.len()
        &&& forall|i: int|
            0 <= i < model.zones@.len() ==> #[trigger] self.zone_indices@[i] == (
                model.zones@[i].name,
                i as usize,
            )
    }
}

// ---------------------------------------------------------------------------
// Counting

/// The chain of a layered boundary has `n + 1` nodes and `n + 2` edges; the
/// counts grow with the number of boundaries processed.
proof fn lemma_counts(m: Model, k: int)
    requires
        0 <= k <= m.boundaries@.len(),
    ensures
        nodes_after(m, k).len() == node_count(m, k),
        edges_after(m, k).len() == edge_count(m, k),
        node_count(m, k) >= m.zones@.len(),
        edge_count(m, k) >= 0,
    decreases k,
{
    if k > 0 {
        lemma_counts(m, k - 1);
    }
}

proof fn lemma_counts_grow(m: Model, k: int, j: int)
    requires
        0 <= k <= j,
    ensures
        node_count(m, k) <= node_count(m, j),
        edge_count(m, k) <= edge_count(m, j),
    decreases j - k,
{
    if k < j {
        lemma_counts_grow(m, k, j - 1);
    }
}

proof fn lemma_layered_count_bound(m: Model, k: int)
    requires
        0 <= k,
    ensures
        0 <= layered_count(m, k) <= k,
    decreases k,
{
    if k > 0 {
        lemma_layered_count_bound(m, k - 1);
    }
}

/// Appending a node extends the marker table by that node's tag only.
proof fn lemma_markers_push(nodes: Seq<Node>, n: Node)
    ensures
        markers_of(nodes.push(n)) == (match n.marker {
            Some((z, x)) => {
                let prev = markers_of(nodes);
                let key = (z@, x@);
                prev.insert(
                    key,
                    (if prev.contains_key(key) {
                        prev[key]
                    } else {
                        Seq::empty()
                    }).push(nodes.len() as usize),
                )
            },
            None => markers_of(nodes),
        }),
{
    assert(nodes.push(n).drop_last() =~= nodes);
}

// ---------------------------------------------------------------------------
// Building

/// Helper for adding nodes and edges of a layered boundary.
/// This exists only to hold the arguments in a slightly organized fashion.
struct LayeredBoundaryBuilder<'a> {
    zone1_node: usize,
    zone2_node: usize,
    zone1_name: &'a String,
    layers: &'a Vec<BoundaryLayer>,
    initial_marker: &'a Option<String>,
    area: Area,
    /// Conductance of the air film over the boundary's area.
    convection_conductance: u128,
    group_index: usize,
    materials: &'a Vec<Material>,
}

impl<'a> LayeredBoundaryBuilder<'a> {
    spec fn wf(&self) -> bool {
        &&& self.layers@.len() > 0
        &&& forall|i: int|
            0 <= i < self.layers@.len() ==> (#[trigger] self.layers@[i]).wf(self.materials@.len())
        &&& forall|i: int| 0 <= i < self.materials@.len() ==> (#[trigger] self.materials@[i]).wf()
        &&& bounded(self.area.micro)
        &&& self.convection_conductance == film_spec(self.area)
    }

    spec fn node_spec(&self, k: int) -> Node {
        chain_node(
            self.materials@,
            *self.zone1_name,
            self.area,
            self.layers@,
            *self.initial_marker,
            self.group_index as int,
            k,
        )
    }

    spec fn edge_spec(&self, base: int, k: int) -> (usize, usize, Edge) {
        chain_edge(
            self.materials@,
            (self.zone1_node, self.zone2_node),
            self.area,
            self.layers@,
            base,
            k,
        )
    }

    /// Heat capacity of layer `i`.
    fn capacity_of(&self, i: usize) -> (r: u128)
        requires
            self.wf(),
            i < self.layers@.len(),
        ensures
            r == layer_cap(self.materials@, self.area, self.layers@[i as int]),
            r <= MAX_LAYER_CAPACITY,
    {
        let layer = &self.layers[i];
        let material = &self.materials[layer.material];
        layer_capacity(self.area, layer.thickness, material.density, material.specific_heat_capacity)
    }

    /// Conductance of layer `i`.
    fn conductance_of(&self, i: usize) -> (r: ThermalConductance)
        requires
            self.wf(),
            i < self.layers@.len(),
        ensures
            r == layer_cond(self.materials@, self.area, self.layers@[i as int]),
    {
        let layer = &self.layers[i];
        layer.conductance(&self.materials[layer.material], self.area)
    }

    /// Add nodes corresponding to the boundary layers to the graph, including connections,
    /// collects marked nodes.
    #[verifier::loop_isolation(false)]
    fn add_layered_boundary_nodes(&self, graph: &mut UnGraph<Node, Edge>, marker_indices: &mut MarkerMap)
        requires
            self.wf(),
            self.zone1_node < graph_nodes(*old(graph)).len(),
            self.zone2_node < graph_nodes(*old(graph)).len(),
            graph_nodes(*old(graph)).len() + self.layers@.len() + 1 < u32::MAX,
            graph_edges(*old(graph)).len() + self.layers@.len() + 2 < u32::MAX,
            marker_entries(*old(marker_indices)) == markers_of(graph_nodes(*old(graph))),
        ensures
            graph_nodes(*final(graph)) == graph_nodes(*old(graph)) + chain_nodes(
                self.materials@,
                *self.zone1_name,
                self.area,
                self.layers@,
                *self.initial_marker,
                self.group_index as int,
            ),
            graph_edges(*final(graph)) == graph_edges(*old(graph)) + chain_edges(
                self.materials@,
                (self.zone1_node, self.zone2_node),
                self.area,
                self.layers@,
                graph_nodes(*old(graph)).len() as int,
            ),
            marker_entries(*final(marker_indices)) == markers_of(graph_nodes(*final(graph))),
    {
        let ghost nodes0 = graph_nodes(*graph);
        let ghost edges0 = graph_edges(*graph);
        let ghost base = nodes0.len() as int;
        let ghost nodes_spec = chain_nodes(
            self.materials@,
            *self.zone1_name,
            self.area,
            self.layers@,
            *self.initial_marker,
            self.group_index as int,
        );
        let ghost edges_spec = chain_edges(
            self.materials@,
            (self.zone1_node, self.zone2_node),
            self.area,
            self.layers@,
            base,
        );
        let n = self.layers.len();
        let c0 = self.capacity_of(0);
        let mut current = self.add_boundary_node(
            HeatCapacity::Finite(c0 / 2),
            self.zone1_node,
            ThermalConductance::Finite(self.convection_conductance),
            self.initial_marker,
            graph,
            marker_indices,
        );
        assert(graph_nodes(*graph) =~= nodes0 + nodes_spec.take(1));
        assert(graph_edges(*graph) =~= edges0 + edges_spec.take(1));

        let mut i: usize = 0;
        while i + 1 < n
            invariant
                self.wf(),
                n == self.layers@.len(),
                i + 1 <= n,
                self.zone1_node < base,
                self.zone2_node < base,
                base + n + 1 < u32::MAX,
                edges0.len() + n + 2 < u32::MAX,
                current == base + i,
                graph_nodes(*graph) == nodes0 + nodes_spec.take(i + 1),
                graph_edges(*graph) == edges0 + edges_spec.take(i + 1),
                marker_entries(*marker_indices) == markers_of(graph_nodes(*graph)),
            decreases n - i,
        {
            assert(graph_nodes(*graph).len() == base + i + 1);
            let c1 = self.capacity_of(i);
            let c2 = self.capacity_of(i + 1);
            let conductance = self.conductance_of(i);
            current = self.add_boundary_node(
                HeatCapacity::Finite((c1 - c1 / 2) + c2 / 2),
                current,
                conductance,
                &self.layers[i].following_marker,
                graph,
                marker_indices,
            );
            assert(nodes_spec[i + 1] == self.node_spec(i + 1));
            assert(edges_spec[i + 1] == self.edge_spec(base, i + 1));
            assert(nodes_spec.take(i + 2) =~= nodes_spec.take(i + 1).push(nodes_spec[i + 1]));
            assert(edges_spec.take(i + 2) =~= edges_spec.take(i + 1).push(edges_spec[i + 1]));
            assert(graph_nodes(*graph) =~= nodes0 + nodes_spec.take(i + 2));
            assert(graph_edges(*graph) =~= edges0 + edges_spec.take(i + 2));
            i += 1;
        }

        let c = self.capacity_of(n - 1);
        let conductance = self.conductance_of(n - 1);
        current = self.add_boundary_node(
            HeatCapacity::Finite(c - c / 2),
            current,
            conductance,
            &self.layers[n - 1].following_marker,
            graph,
            marker_indices,
        );
        assert(nodes_spec.take(n + 1) =~= nodes_spec.take(n as int).push(self.node_spec(n as int)));
        assert(edges_spec.take(n + 1) =~= edges_spec.take(n as int).push(self.edge_spec(base, n as int)));
        assert(nodes_spec.take(n + 1) =~= nodes_spec);
        assert(graph_nodes(*graph) =~= nodes0 + nodes_spec);

        add_edge(
            graph,
            current,
            self.zone2_node,
            Edge { conductance: ThermalConductance::Finite(self.convection_conductance) },
        );
        assert(edges_spec =~= edges_spec.take(n + 1).push(self.edge_spec(base, n + 1)));
        assert(graph_edges(*graph) =~= edges0 + edges_spec);
    }

    /// Add a new node on a boundary between two nodes, process its markers and connect
    /// it to the graph.
    /// This is used both for the nodes within the boundary and for nodes between the
    /// boundary and the zone.
    fn add_boundary_node(
        &self,
        heat_capacity: HeatCapacity,
        prev_node: usize,
        thermal_conductance: ThermalConductance,
        marker: &Option<String>,
        graph: &mut UnGraph<Node, Edge>,
        marker_indices: &mut MarkerMap,
    ) -> (node: usize)
        requires
            prev_node < graph_nodes(*old(graph)).len(),
            graph_nodes(*old(graph)).len() + 1 < u32::MAX,
            graph_edges(*old(graph)).len() + 1 < u32::MAX,
            marker_entries(*old(marker_indices)) == markers_of(graph_nodes(*old(graph))),
        ensures
            node == graph_nodes(*old(graph)).len(),
            graph_nodes(*final(graph)) == graph_nodes(*old(graph)).push(
                Node {
                    zone_name: None,
                    marker: tag(*self.zone1_name, *marker),
                    heat_capacity,
                    boundary_group_index: Some(self.group_index),
                },
            ),
            graph_edges(*final(graph)) == graph_edges(*old(graph)).push(
                (prev_node, node, Edge { conductance: thermal_conductance }),
            ),
            marker_entries(*final(marker_indices)) == markers_of(graph_nodes(*final(graph))),
    {
        let ghost nodes0 = graph_nodes(*graph);
        let tagged = match marker {
            Some(m) => Some((self.zone1_name.clone(), m.clone())),
            None => None,
        };
        let key = match marker {
            Some(m) => Some((self.zone1_name.clone(), m.clone())),
            None => None,
        };
        let new_node = Node {
            zone_name: None,
            marker: tagged,
            heat_capacity,
            boundary_group_index: Some(self.group_index),
        };
        proof {
            lemma_markers_push(nodes0, new_node);
        }
        let node = add_node(graph, new_node);
        if let Some(k) = key {
            insert_marker(marker_indices, k, node);
        }
        add_edge(graph, prev_node, node, Edge { conductance: thermal_conductance });
        node
    }
}

impl RcNetwork {
    /// Compiles `model` into its RC network.
    pub fn from(model: &Model) -> (r: RcNetwork)
        requires
            model.wf(),
            fits_graph(*model),
        ensures
            r.built_from(*model),
            graph_nodes(r.graph).len() == node_count(*model, model.boundaries@.len() as int),
            graph_edges(r.graph).len() == edge_count(*model, model.boundaries@.len() as int),
    {
        let ghost m = *model;
        let ghost nb = model.boundaries@.len() as int;
        proof {
            lemma_counts(m, nb);
        }
        let mut graph = new_graph();
        let mut zone_indices: Vec<(String, usize)> = Vec::new();
        let air = &model.materials[model.air];
        let mut i: usize = 0;
        while i < model.zones.len()
            invariant
                model.wf(),
                m == *model,
                air == model.materials@[model.air as int],
                i <= model.zones@.len(),
                model.zones@.len() < u32::MAX,
                graph_nodes(graph) == zone_nodes(m).take(i as int),
                graph_edges(graph) == Seq::<(usize, usize, Edge)>::empty(),
                zone_indices@.len() == i,
                forall|j: int|
                    0 <= j < i ==> #[trigger] zone_indices@[j] == (model.zones@[j].name, j as usize),
            decreases model.zones@.len() - i,
        {
            let z = &model.zones[i];
            assert(model.zones@[i as int].wf());
            let node = add_node(
                &mut graph,
                Node {
                    zone_name: Some(z.name.clone()),
                    marker: None,
                    heat_capacity: z.heat_capacity(air),
                    boundary_group_index: None,
                },
            );
            zone_indices.push((z.name.clone(), node));
            assert(zone_nodes(m).take(i + 1) =~= zone_nodes(m).take(i as int).push(
                zone_node_spec(model.zones@[i as int], *air),
            ));
            i += 1;
        }
        assert(zone_nodes(m).take(i as int) =~= zone_nodes(m));
        let mut marker_indices = new_marker_map();
        proof {
            lemma_unmarked(zone_nodes(m));
        }
        let film_coefficient = air_convection_conductance(Velocity { micro: 0 });
        let mut group: usize = 0;
        let mut k: usize = 0;
        while k < model.boundaries.len()
            invariant
                model.wf(),
                fits_graph(*model),
                m == *model,
                nb == model.boundaries@.len(),
                k <= nb,
                film_coefficient.micro == STILL_AIR_FILM,
                graph_nodes(graph) == nodes_after(m, k as int),
                graph_edges(graph) == edges_after(m, k as int),
                marker_entries(marker_indices) == markers_of(graph_nodes(graph)),
                group == layered_count(m, k as int),
            decreases nb - k,
        {
            proof {
                lemma_counts(m, k as int);
                lemma_counts(m, k + 1);
                lemma_counts_grow(m, k + 1, nb);
                lemma_layered_count_bound(m, k as int);
            }
            let b = &model.boundaries[k];
            assert(model.boundaries@[k as int].wf(
                model.boundary_types@.len(),
                model.zones@.len(),
            ));
            proof {
                lemma_mul_bound(STILL_AIR_FILM as int, b.area.micro as int, STILL_AIR_FILM as int, MAX_MAGNITUDE as int);
                lemma_mul_spec_bound(STILL_AIR_FILM as int, b.area.micro as int, STILL_AIR_FILM as int, MAX_MAGNITUDE as int);
            }
            let film = mul_fixed(film_coefficient.micro as u128, b.area.micro as u128);
            let bt = &model.boundary_types[b.boundary_type];
            assert(model.boundary_types@[b.boundary_type as int].wf(model.materials@.len()));
            match bt {
                BoundaryType::Layered { layers, initial_marker, .. } => {
                    let builder = LayeredBoundaryBuilder {
                        zone1_node: b.zones.0,
                        zone2_node: b.zones.1,
                        zone1_name: &model.zones[b.zones.0].name,
                        layers,
                        initial_marker,
                        area: b.area,
                        convection_conductance: film,
                        group_index: group,
                        materials: &model.materials,
                    };
                    builder.add_layered_boundary_nodes(&mut graph, &mut marker_indices);
                    group += 1;
                },
                BoundaryType::Simple { u, .. } => {
                    proof {
                        lemma_mul_spec_bound(u.micro as int, b.area.micro as int, MAX_MAGNITUDE as int, MAX_MAGNITUDE as int);
                    }
                    let through = mul_fixed(u.micro as u128, b.area.micro as u128);
                    let conductance = series_conductance(film, through);
                    add_edge(
                        &mut graph,
                        b.zones.0,
                        b.zones.1,
                        Edge { conductance: ThermalConductance::Finite(conductance) },
                    );
                },
            }
            assert(graph_nodes(graph) =~= nodes_after(m, k + 1));
            assert(graph_edges(graph) =~= edges_after(m, k + 1));
            k += 1;
        }
        RcNetwork { graph, zone_indices, marker_indices }
    }

    /// Looks up the node of the zone called `name`.
    pub fn zone_node(&self, name: &str) -> (r: Option<usize>)
        ensures
            match first_index(entry_names(self.zone_indices@), name@) {
                Some(j) => r == Some(self.zone_indices@[j].1),
                None => r is None,
            },
    {
        let key = String::from_str(name);
        proof {
            lemma_first_index(entry_names(self.zone_indices@), name@);
        }
        match get(&self.zone_indices, &key) {
            Some(j) => Some(self.zone_indices[j].1),
            None => None,
        }
    }

    /// All nodes tagged with `marker` under the zone `zone`, in order of creation.
    pub fn marker_nodes(&self, zone: &str, marker: &str) -> (r: Vec<usize>)
        ensures
            r@ == (if marker_entries(self.marker_indices).contains_key((zone@, marker@)) {
                marker_entries(self.marker_indices)[(zone@, marker@)]
            } else {
                Seq::empty()
            }),
    {
        match get_markers(&self.marker_indices, zone, marker) {
            Some(v) => v,
            None => Vec::new(),
        }
    }
}

/// Nodes without tags leave the marker table empty.
proof fn lemma_unmarked(nodes: Seq<Node>)
    requires
        forall|i: int| 0 <= i < nodes.len() ==> (#[trigger] nodes[i]).marker is None,
    ensures
        markers_of(nodes) == Map::<(Seq<char>, Seq<char>), Seq<usize>>::empty(),
    decreases nodes.len(),
{
    if nodes.len() > 0 {
        let d = nodes.drop_last();
        assert forall|i: int| 0 <= i < d.len() implies (#[trigger] d[i]).marker is None by {
            assert(d[i] == nodes[i]);
        }
        lemma_unmarked(d);
    }
}

} // verus!
