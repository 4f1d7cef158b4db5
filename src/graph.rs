//! The outside collections that hold the network: petgraph's undirected graph
//! and multimap's multi-valued map, with what the network relies on of them.

use crate::rc_network::{Edge, Node};
use multimap::MultiMap;
use petgraph::graph::{EdgeIndex, Graph, NodeIndex, UnGraph};
use petgraph::Undirected;
use vstd::prelude::*;

verus! {

#[verifier::external_type_specification]
#[verifier::external_body]
#[verifier::reject_recursive_types(N)]
#[verifier::reject_recursive_types(E)]
#[verifier::reject_recursive_types(Ty)]
#[verifier::reject_recursive_types(Ix)]
pub struct ExGraph<N, E, Ty, Ix>(Graph<N, E, Ty, Ix>);

#[verifier::external_type_specification]
#[verifier::external_body]
pub struct ExUndirected(Undirected);

#[verifier::external_type_specification]
#[verifier::external_body]
#[verifier::reject_recursive_types(K)]
#[verifier::reject_recursive_types(V)]
#[verifier::reject_recursive_types(S)]
pub struct ExMultiMap<K, V, S>(MultiMap<K, V, S>);

/// Node indices by `(zone, marker)` tag.
pub type MarkerMap = MultiMap<(String, String), usize>;

/// A `(zone, marker)` tag as character sequences.
pub type MarkerKey = (Seq<char>, Seq<char>);

/// The node weights of a graph, in the order of their indices.
pub uninterp spec fn graph_nodes(g: UnGraph<Node, Edge>) -> Seq<Node>;

/// The edges of a graph, in the order of their indices: the two endpoints as
/// given when the edge was added, and the weight.
pub uninterp spec fn graph_edges(g: UnGraph<Node, Edge>) -> Seq<(usize, usize, Edge)>;

/// The values of a multimap by key, each list in the order of insertion.
pub uninterp spec fn marker_entries(m: MarkerMap) -> Map<
    (Seq<char>, Seq<char>),
    Seq<usize>,
>;

/// The multimap without entries.
pub open spec fn no_markers() -> Map<MarkerKey, Seq<usize>> {
    Map::empty()
}

/// Relies on petgraph's `Graph::new_undirected`: a graph without nodes or edges.
#[verifier::external_body]
pub(crate) fn new_graph() -> (g: UnGraph<Node, Edge>)
    ensures
        graph_nodes(g) == Seq::<Node>::empty(),
        graph_edges(g) == Seq::<(usize, usize, Edge)>::empty(),
{
    UnGraph::new_undirected()
}

/// Relies on petgraph's `Graph::add_node`: the node is appended and its index is
/// the former node count; it panics only when that count reaches `u32::MAX`.
#[verifier::external_body]
pub(crate) fn add_node(g: &mut UnGraph<Node, Edge>, weight: Node) -> (i: usize)
    requires
        graph_nodes(*old(g)).len() < u32::MAX,
    ensures
        graph_nodes(*final(g)) == graph_nodes(*old(g)).push(weight),
        graph_edges(*final(g)) == graph_edges(*old(g)),
        i == graph_nodes(*old(g)).len(),
{
    g.add_node(weight).index()
}

/// Relies on petgraph's `Graph::add_edge`: the edge is appended; it panics only
/// when an endpoint is not a node or the edge count reaches `u32::MAX`.
#[verifier::external_body]
pub(crate) fn add_edge(g: &mut UnGraph<Node, Edge>, a: usize, b: usize, weight: Edge)
    requires
        a < graph_nodes(*old(g)).len(),
        b < graph_nodes(*old(g)).len(),
        graph_edges(*old(g)).len() < u32::MAX,
    ensures
        graph_edges(*final(g)) == graph_edges(*old(g)).push((a, b, weight)),
        graph_nodes(*final(g)) == graph_nodes(*old(g)),
{
    g.add_edge(NodeIndex::new(a), NodeIndex::new(b), weight);
}

/// Relies on multimap's `MultiMap::new`: an empty map.
#[verifier::external_body]
pub(crate) fn new_marker_map() -> (r: MarkerMap)
    ensures
        marker_entries(r) == no_markers(),
{
    MultiMap::new()
}

/// Relies on multimap's `MultiMap::insert`: the value is appended to the list of
/// its key, which is created if absent. Keys are compared by `String` equality.
#[verifier::external_body]
pub(crate) fn insert_marker(m: &mut MarkerMap, key: (String, String), node: usize)
    ensures
        marker_entries(*final(m)) == marker_entries(*old(m)).insert(
            (key.0@, key.1@),
            (if marker_entries(*old(m)).contains_key((key.0@, key.1@)) {
                marker_entries(*old(m))[(key.0@, key.1@)]
            } else {
                Seq::empty()
            }).push(node),
        ),
{
    m.insert(key, node)
}

/// Relies on multimap's `MultiMap::get_vec`: the list of the key, if present.
#[verifier::external_body]
pub(crate) fn get_markers(m: &MarkerMap, zone: &str, marker: &str) -> (r:
    Option<Vec<usize>>)
    ensures
        match r {
            Some(v) => marker_entries(*m).contains_key((zone@, marker@)) && v@ == marker_entries(
                *m,
            )[(zone@, marker@)],
            None => !marker_entries(*m).contains_key((zone@, marker@)),
        },
{
    m.get_vec(&(zone.to_string(), marker.to_string())).cloned()
}

/// Relies on petgraph's `Graph::node_count`: the number of nodes.
#[verifier::external_body]
pub(crate) fn node_count(g: &UnGraph<Node, Edge>) -> (r: usize)
    ensures
        r == graph_nodes(*g).len(),
{
    g.node_count()
}

/// Relies on petgraph's `Graph::edge_count`: the number of edges.
#[verifier::external_body]
pub(crate) fn edge_count(g: &UnGraph<Node, Edge>) -> (r: usize)
    ensures
        r == graph_edges(*g).len(),
{
    g.edge_count()
}

/// Relies on petgraph's indexing of a graph by node: the weight of node `i`;
/// it panics only when there is no such node.
#[verifier::external_body]
pub(crate) fn node_weight(g: &UnGraph<Node, Edge>, i: usize) -> (r: &Node)
    requires
        i < graph_nodes(*g).len(),
    ensures
        *r == graph_nodes(*g)[i as int],
{
    &g[NodeIndex::new(i)]
}

/// Relies on petgraph's indexing of a graph by edge: the weight of edge `i`;
/// it panics only when there is no such edge.
#[verifier::external_body]
pub(crate) fn edge_weight(g: &UnGraph<Node, Edge>, i: usize) -> (r: Edge)
    requires
        i < graph_edges(*g).len(),
    ensures
        r == graph_edges(*g)[i as int].2,
{
    g[EdgeIndex::new(i)]
}

/// Relies on petgraph's `Graph::edge_endpoints`: the two endpoints of edge `i`
/// in the order they were given, present whenever the edge exists.
#[verifier::external_body]
pub(crate) fn edge_endpoints(g: &UnGraph<Node, Edge>, i: usize) -> (r: (usize, usize))
    requires
        i < graph_edges(*g).len(),
    ensures
        r.0 == graph_edges(*g)[i as int].0,
        r.1 == graph_edges(*g)[i as int].1,
{
    let (a, b) = g.edge_endpoints(EdgeIndex::new(i)).unwrap();
    (a.index(), b.index())
}

} // verus!
