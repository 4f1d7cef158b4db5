//! Properties of the network as a whole.

use crate::as_loaded;
use crate::graph::{graph_edges, graph_nodes, marker_entries};
use crate::load::{expand_boundary, sub_boundaries};
use crate::lookup::first_index;
use crate::model::{
    layer_capacity_spec, zone_capacity_spec, Boundary, BoundaryLayer, BoundaryType, Material, Model,
    MAX_LAYER_CAPACITY,
};
use crate::rc_network::{
    boundary_edges, edges_after, film_spec, layer_cond, tag, Edge,
    layered_count, boundary_nodes, boundary_type_of, chain_capacity, chain_nodes, layer_cap, nodes_after,
    zone_nodes, Node, RcNetwork,
};
use crate::units::{bounded, Area, ThermalConductance, lemma_mul_spec_bound, mul_spec, HeatCapacity, MAX_MAGNITUDE};
use vstd::prelude::*;

verus! {

/// Sum of the finite heat capacities of `nodes`, in µJ/K.
pub open spec fn finite_capacity_sum(nodes: Seq<Node>) -> int
    decreases nodes.len(),
{
    if nodes.len() == 0 {
        0
    } else {
        finite_capacity_sum(nodes.drop_last()) + match nodes.last().heat_capacity {
            HeatCapacity::Finite(c) => c as int,
            HeatCapacity::Infinite => 0,
        }
    }
}

/// Sum of the heat capacities of the first `k` zones that have a volume, filled
/// with the model's air.
pub open spec fn zone_capacity_total(m: Model, k: int) -> int
    decreases k,
{
    if k <= 0 {
        0
    } else {
        let air = m.materials@[m.air as int];
        zone_capacity_total(m, k - 1) + match m.zones@[k - 1].volume {
            Some(v) => zone_capacity_spec(v.micro, air.density.micro, air.specific_heat_capacity.micro),
            None => 0,
        }
    }
}

/// Sum of the full capacities of the first `j` layers.
pub open spec fn layer_capacity_total(
    materials: Seq<Material>,
    area: Area,
    layers: Seq<BoundaryLayer>,
    j: int,
) -> int
    decreases j,
{
    if j <= 0 {
        0
    } else {
        layer_capacity_total(materials, area, layers, j - 1) + layer_cap(materials, area, layers[j - 1])
    }
}

/// Sum of the layer capacities of the layered boundaries among the first `k`.
pub open spec fn boundary_capacity_total(m: Model, k: int) -> int
    decreases k,
{
    if k <= 0 {
        0
    } else {
        boundary_capacity_total(m, k - 1) + match boundary_type_of(m, k - 1) {
            BoundaryType::Layered { layers, .. } => layer_capacity_total(
                m.materials@,
                m.boundaries@[k - 1].area,
                layers@,
                layers@.len() as int,
            ),
            BoundaryType::Simple { .. } => 0,
        }
    }
}

proof fn lemma_sum_concat(a: Seq<Node>, b: Seq<Node>)
    ensures
        finite_capacity_sum(a + b) == finite_capacity_sum(a) + finite_capacity_sum(b),
    decreases b.len(),
{
    if b.len() == 0 {
        assert(a + b =~= a);
    } else {
        assert((a + b).drop_last() =~= a + b.drop_last());
        lemma_sum_concat(a, b.drop_last());
    }
}

proof fn lemma_zone_capacity_bound(v: u64, density: u64, specific_heat: u64)
    requires
        bounded(v),
        bounded(density),
        bounded(specific_heat),
    ensures
        0 <= zone_capacity_spec(v, density, specific_heat) <= 1_000_000_000_000_000_000_000_000,
{
    let b = MAX_MAGNITUDE as int;
    lemma_mul_spec_bound(v as int, density as int, b, b);
    let x = mul_spec(v as int, density as int);
    lemma_mul_spec_bound(x, specific_heat as int, 1_000_000_000_000_000_000, b);
}

proof fn lemma_layer_capacity_bound(area: u64, thickness: u64, density: u64, specific_heat: u64)
    requires
        bounded(area),
        bounded(thickness),
        bounded(density),
        bounded(specific_heat),
    ensures
        0 <= layer_capacity_spec(area, thickness, density, specific_heat) <= MAX_LAYER_CAPACITY,
{
    let b = MAX_MAGNITUDE as int;
    lemma_mul_spec_bound(area as int, thickness as int, b, b);
    let v = mul_spec(area as int, thickness as int);
    lemma_mul_spec_bound(v, density as int, 1_000_000_000_000_000_000, b);
    let w = mul_spec(v, density as int);
    lemma_mul_spec_bound(w, specific_heat as int, 1_000_000_000_000_000_000_000_000, b);
}

proof fn lemma_zone_nodes_sum(m: Model, k: int)
    requires
        m.wf(),
        0 <= k <= m.zones@.len(),
    ensures
        finite_capacity_sum(zone_nodes(m).take(k)) == zone_capacity_total(m, k),
    decreases k,
{
    if k > 0 {
        let air = m.materials@[m.air as int];
        assert(zone_nodes(m).take(k).drop_last() =~= zone_nodes(m).take(k - 1));
        lemma_zone_nodes_sum(m, k - 1);
        assert(m.zones@[k - 1].wf());
        assert(air.wf());
        if let Some(v) = m.zones@[k - 1].volume {
            lemma_zone_capacity_bound(v.micro, air.density.micro, air.specific_heat_capacity.micro);
        }
    }
}

/// Every layer of a chain has a capacity in range.
pub open spec fn layers_in_range(materials: Seq<Material>, area: Area, layers: Seq<BoundaryLayer>) -> bool {
    forall|i: int| 0 <= i < layers.len() ==> 0 <= #[trigger] layer_cap(materials, area, layers[i]) <= MAX_LAYER_CAPACITY
}

/// The sum over the first `j` nodes of a chain, one node at a time.
proof fn lemma_chain_step(chain: Seq<Node>, j: int, cap: int)
    requires
        1 <= j <= chain.len(),
        0 <= cap <= u128::MAX,
        chain[j - 1].heat_capacity == HeatCapacity::Finite(cap as u128),
    ensures
        finite_capacity_sum(chain.take(j)) == finite_capacity_sum(chain.take(j - 1)) + cap,
{
    assert(chain.take(j).drop_last() =~= chain.take(j - 1));
    assert(chain.take(j).last() == chain[j - 1]);
}

proof fn lemma_chain_prefix(
    materials: Seq<Material>,
    zone: String,
    area: Area,
    layers: Seq<BoundaryLayer>,
    initial: Option<String>,
    group: int,
    j: int,
)
    requires
        layers_in_range(materials, area, layers),
        1 <= j <= layers.len(),
    ensures
        finite_capacity_sum(chain_nodes(materials, zone, area, layers, initial, group).take(j))
            == layer_capacity_total(materials, area, layers, j - 1) + layer_cap(
            materials,
            area,
            layers[j - 1],
        ) / 2,
    decreases j,
{
    let chain = chain_nodes(materials, zone, area, layers, initial, group);
    let c = layer_cap(materials, area, layers[j - 1]);
    assert(0 <= c <= MAX_LAYER_CAPACITY);
    if j == 1 {
        assert(chain.take(0) =~= Seq::<Node>::empty());
        let cap = chain_capacity(materials, area, layers, 0);
        assert(cap == c / 2);
        lemma_chain_step(chain, 1, cap);
    } else {
        lemma_chain_prefix(materials, zone, area, layers, initial, group, j - 1);
        let p = layer_cap(materials, area, layers[j - 2]);
        assert(0 <= p <= MAX_LAYER_CAPACITY);
        let cap = chain_capacity(materials, area, layers, j - 1);
        assert(cap == (p - p / 2) + c / 2);
        lemma_chain_step(chain, j, cap);
    }
}

proof fn lemma_chain_sum(
    materials: Seq<Material>,
    zone: String,
    area: Area,
    layers: Seq<BoundaryLayer>,
    initial: Option<String>,
    group: int,
)
    requires
        layers_in_range(materials, area, layers),
        layers.len() >= 1,
    ensures
        finite_capacity_sum(chain_nodes(materials, zone, area, layers, initial, group))
            == layer_capacity_total(materials, area, layers, layers.len() as int),
{
    let n = layers.len() as int;
    let chain = chain_nodes(materials, zone, area, layers, initial, group);
    lemma_chain_prefix(materials, zone, area, layers, initial, group, n);
    let c = layer_cap(materials, area, layers[n - 1]);
    assert(0 <= c <= MAX_LAYER_CAPACITY);
    let cap = chain_capacity(materials, area, layers, n);
    assert(cap == c - c / 2);
    lemma_chain_step(chain, n + 1, cap);
    assert(chain.take(n + 1) =~= chain);
}

proof fn lemma_nodes_after_sum(m: Model, k: int)
    requires
        m.wf(),
        0 <= k <= m.boundaries@.len(),
    ensures
        finite_capacity_sum(nodes_after(m, k)) == zone_capacity_total(m, m.zones@.len() as int)
            + boundary_capacity_total(m, k),
    decreases k,
{
    if k == 0 {
        lemma_zone_nodes_sum(m, m.zones@.len() as int);
        assert(zone_nodes(m).take(m.zones@.len() as int) =~= zone_nodes(m));
    } else {
        lemma_nodes_after_sum(m, k - 1);
        lemma_sum_concat(nodes_after(m, k - 1), boundary_nodes(m, k - 1));
        let b = m.boundaries@[k - 1];
        assert(b.wf(m.boundary_types@.len(), m.zones@.len()));
        match boundary_type_of(m, k - 1) {
            BoundaryType::Layered { layers, initial_marker, .. } => {
                assert(boundary_type_of(m, k - 1).wf(m.materials@.len()));
                assert forall|i: int| 0 <= i < layers@.len() implies 0 <= #[trigger] layer_cap(
                    m.materials@,
                    b.area,
                    layers@[i],
                ) <= MAX_LAYER_CAPACITY by {
                    let l = layers@[i];
                    assert(l.wf(m.materials@.len()));
                    let mat = m.materials@[l.material as int];
                    assert(mat.wf());
                    lemma_layer_capacity_bound(
                        b.area.micro,
                        l.thickness.micro,
                        mat.density.micro,
                        mat.specific_heat_capacity.micro,
                    );
                }
                lemma_chain_sum(
                    m.materials@,
                    m.zones@[b.zones.0 as int].name,
                    b.area,
                    layers@,
                    initial_marker,
                    layered_count(m, k - 1),
                );
            },
            BoundaryType::Simple { .. } => {
                assert(finite_capacity_sum(Seq::<Node>::empty()) == 0);
            },
        }
    }
}

/// Heat capacity is conserved: the finite node capacities of the network add up
/// exactly to the capacities of the zones that have a volume plus the full
/// capacity of every layer of every layered boundary. Splitting each layer
/// between the nodes on its two faces loses and duplicates nothing.
pub proof fn lemma_heat_capacity_conserved(model: Model, net: RcNetwork)
    requires
        model.wf(),
        net.built_from(model),
    ensures
        finite_capacity_sum(graph_nodes(net.graph)) == zone_capacity_total(
            model,
            model.zones@.len() as int,
        ) + boundary_capacity_total(model, model.boundaries@.len() as int),
{
    lemma_nodes_after_sum(model, model.boundaries@.len() as int);
}

/// Building is deterministic: two networks built from the same model have the
/// same nodes, the same edges, the same zone table and the same marker table.
pub proof fn lemma_build_deterministic(model: Model, a: RcNetwork, b: RcNetwork)
    requires
        a.built_from(model),
        b.built_from(model),
    ensures
        graph_nodes(a.graph) == graph_nodes(b.graph),
        graph_edges(a.graph) == graph_edges(b.graph),
        a.zone_indices@ == b.zone_indices@,
        marker_entries(a.marker_indices) == marker_entries(b.marker_indices),
{
    assert(a.zone_indices@ =~= b.zone_indices@);
}

/// Sum of the areas of `bs`, in millionths of a square metre.
pub open spec fn area_sum(bs: Seq<Boundary>) -> int
    decreases bs.len(),
{
    if bs.len() == 0 {
        0
    } else {
        area_sum(bs.drop_last()) + bs.last().area.micro
    }
}

proof fn lemma_sub_boundaries_area(
    subs: Seq<as_loaded::SubBoundary>,
    names: (Seq<char>, Seq<char>),
    zones: (usize, usize),
    area: int,
    types: Seq<Seq<char>>,
)
    requires
        0 <= area,
        sub_boundaries(subs, names, zones, area, types) is Ok,
    ensures
        ({
            let (bs, remaining) = sub_boundaries(subs, names, zones, area, types)->Ok_0;
            &&& area_sum(bs) + remaining == area
            &&& 0 <= remaining <= area
            &&& bs.len() == subs.len()
            &&& forall|i: int| 0 <= i < bs.len() ==> (#[trigger] bs[i]).zones == zones
        }),
    decreases subs.len(),
{
    if subs.len() > 0 {
        lemma_sub_boundaries_area(subs.drop_last(), names, zones, area, types);
        let (bs, _) = sub_boundaries(subs, names, zones, area, types)->Ok_0;
        let (prev, _) = sub_boundaries(subs.drop_last(), names, zones, area, types)->Ok_0;
        assert(bs.drop_last() =~= prev);
    }
}

/// Expanding a boundary keeps its area: the boundaries it expands to (its
/// sub-boundaries, then the rest) all lie between the same two zones, number one
/// more than its sub-boundaries, and have areas that add up to its own.
pub proof fn lemma_expansion_keeps_area(
    b: as_loaded::Boundary,
    zones: Seq<Seq<char>>,
    types: Seq<Seq<char>>,
)
    requires
        expand_boundary(b, zones, types) is Ok,
    ensures
        ({
            let bs = expand_boundary(b, zones, types)->Ok_0;
            &&& bs.len() == b.sub_boundaries@.len() + 1
            &&& area_sum(bs) == b.area.micro
            &&& forall|i: int| 0 <= i < bs.len() ==> (#[trigger] bs[i]).zones == bs.last().zones
        }),
{
    let bs = expand_boundary(b, zones, types)->Ok_0;
    let z0 = first_index(zones, b.zones.0@)->Some_0;
    let z1 = first_index(zones, b.zones.1@)->Some_0;
    let pair = (z0 as usize, z1 as usize);
    let names = (b.zones.0@, b.zones.1@);
    lemma_sub_boundaries_area(b.sub_boundaries@, names, pair, b.area.micro as int, types);
    let (subs, _) = sub_boundaries(b.sub_boundaries@, names, pair, b.area.micro as int, types)->Ok_0;
    assert(bs.drop_last() =~= subs);
    assert(bs.last().zones == pair);
}

/// The nodes and edges after `j` boundaries are a prefix of those after `k`.
proof fn lemma_after_prefix(m: Model, j: int, k: int)
    requires
        0 <= j <= k,
    ensures
        nodes_after(m, k).take(nodes_after(m, j).len() as int) == nodes_after(m, j),
        edges_after(m, k).take(edges_after(m, j).len() as int) == edges_after(m, j),
        nodes_after(m, j).len() <= nodes_after(m, k).len(),
        edges_after(m, j).len() <= edges_after(m, k).len(),
    decreases k - j,
{
    if j == k {
        assert(nodes_after(m, k).take(nodes_after(m, j).len() as int) =~= nodes_after(m, j));
        assert(edges_after(m, k).take(edges_after(m, j).len() as int) =~= edges_after(m, j));
    } else {
        lemma_after_prefix(m, j, k - 1);
        let nj = nodes_after(m, j).len() as int;
        let ej = edges_after(m, j).len() as int;
        assert(nodes_after(m, k).take(nj) =~= nodes_after(m, k - 1).take(nj));
        assert(edges_after(m, k).take(ej) =~= edges_after(m, k - 1).take(ej));
    }
}

/// Marker addressing: in a network built from `model`, the nodes of layered
/// boundary `i` form a chain. Its first node carries the initial marker (tagged
/// with the boundary's first zone) and is joined to the first zone's node by the
/// air film; node `k` carries the marker that follows layer `k - 1` and is
/// joined to node `k - 1` through that layer's conductance; its last node is
/// joined to the second zone's node by the air film.
pub proof fn lemma_marker_addressing(model: Model, net: RcNetwork, i: int)
    requires
        model.wf(),
        net.built_from(model),
        0 <= i < model.boundaries@.len(),
        boundary_type_of(model, i) is Layered,
    ensures
        ({
            let b = model.boundaries@[i];
            let zone = model.zones@[b.zones.0 as int].name;
            let nodes = graph_nodes(net.graph);
            let edges = graph_edges(net.graph);
            let base = nodes_after(model, i).len() as int;
            let first_edge = edges_after(model, i).len() as int;
            let film = Edge { conductance: ThermalConductance::Finite(film_spec(b.area) as u128) };
            match boundary_type_of(model, i) {
                BoundaryType::Layered { layers, initial_marker, .. } => {
                    let n = layers@.len() as int;
                    &&& nodes[base].marker == tag(zone, initial_marker)
                    &&& edges[first_edge] == (b.zones.0, base as usize, film)
                    &&& forall|k: int|
                        1 <= k <= n ==> {
                            &&& (#[trigger] nodes[base + k]).marker == tag(
                                zone,
                                layers@[k - 1].following_marker,
                            )
                            &&& edges[first_edge + k] == (
                                (base + k - 1) as usize,
                                (base + k) as usize,
                                Edge { conductance: layer_cond(model.materials@, b.area, layers@[k - 1]) },
                            )
                        }
                    &&& edges[first_edge + n + 1] == ((base + n) as usize, b.zones.1, film)
                },
                BoundaryType::Simple { .. } => true,
            }
        }),
{
    let len = model.boundaries@.len() as int;
    lemma_after_prefix(model, i + 1, len);
    let after = nodes_after(model, i + 1);
    let after_edges = edges_after(model, i + 1);
    let base = nodes_after(model, i).len() as int;
    let first_edge = edges_after(model, i).len() as int;
    let nodes = graph_nodes(net.graph);
    let edges = graph_edges(net.graph);
    assert forall|q: int| 0 <= q < after.len() implies nodes[q] == after[q] by {
        assert(nodes.take(after.len() as int)[q] == after[q]);
    }
    assert forall|q: int| 0 <= q < after_edges.len() implies edges[q] == after_edges[q] by {
        assert(edges.take(after_edges.len() as int)[q] == after_edges[q]);
    }
    assert(after == nodes_after(model, i) + boundary_nodes(model, i));
    assert(after_edges == edges_after(model, i) + boundary_edges(model, i, base));
}

} // verus!
