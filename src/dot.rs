//! Graphviz text of a network, for inspection.
//!
//! Nodes without a boundary group come first, then one cluster per group, then
//! every edge. Quantities are written in SI units with six decimals.

use crate::graph::{edge_count, edge_endpoints, edge_weight, graph_edges, graph_nodes, node_count, node_weight};
use crate::rc_network::{Edge, Node, RcNetwork};
use crate::units::{HeatCapacity, ThermalConductance};
use vstd::prelude::*;

verus! {

pub open spec fn digit(d: int) -> Seq<char> {
    if d == 0 {
        "0"@
    } else if d == 1 {
        "1"@
    } else if d == 2 {
        "2"@
    } else if d == 3 {
        "3"@
    } else if d == 4 {
        "4"@
    } else if d == 5 {
        "5"@
    } else if d == 6 {
        "6"@
    } else if d == 7 {
        "7"@
    } else if d == 8 {
        "8"@
    } else {
        "9"@
    }
}

/// `n` in decimal, without leading zeros.
pub open spec fn decimal(n: nat) -> Seq<char>
    decreases n,
{
    if n < 10 {
        digit(n as int)
    } else {
        decimal(n / 10) + digit((n % 10) as int)
    }
}

/// The last `width` decimal digits of `n`, with leading zeros.
pub open spec fn padded(n: nat, width: nat) -> Seq<char>
    decreases width,
{
    if width == 0 {
        Seq::empty()
    } else {
        padded(n / 10, (width - 1) as nat) + digit((n % 10) as int)
    }
}

/// A count of millionths as a decimal number with six decimals.
pub open spec fn fixed_text(micro: nat) -> Seq<char> {
    decimal(micro / 1_000_000) + "."@ + padded(micro % 1_000_000, 6)
}

pub open spec fn capacity_text(c: HeatCapacity) -> Seq<char> {
    match c {
        HeatCapacity::Finite(c) => fixed_text(c as nat) + " J/K"@,
        HeatCapacity::Infinite => "inf J/K"@,
    }
}

pub open spec fn conductance_text(c: ThermalConductance) -> Seq<char> {
    match c {
        ThermalConductance::Finite(c) => fixed_text(c as nat) + " W/K"@,
        ThermalConductance::Infinite => "inf W/K"@,
    }
}

/// The zone name, the `zone/marker` tag and the heat capacity, on lines of
/// their own.
pub open spec fn node_label(n: Node) -> Seq<char> {
    (match n.zone_name {
        Some(z) => z@ + "\\n"@,
        None => Seq::empty(),
    }) + (match n.marker {
        Some((z, m)) => z@ + "/"@ + m@ + "\\n"@,
        None => Seq::empty(),
    }) + capacity_text(n.heat_capacity)
}

pub open spec fn node_line(indent: Seq<char>, i: nat, n: Node) -> Seq<char> {
    indent + "node_"@ + decimal(i) + " [ label = \""@ + node_label(n) + "\" ]\n"@
}

/// Lines of the nodes without a group.
pub open spec fn ungrouped_lines(nodes: Seq<Node>) -> Seq<char>
    decreases nodes.len(),
{
    if nodes.len() == 0 {
        Seq::empty()
    } else {
        ungrouped_lines(nodes.drop_last()) + if nodes.last().boundary_group_index is None {
            node_line("    "@, (nodes.len() - 1) as nat, nodes.last())
        } else {
            Seq::empty()
        }
    }
}

/// Lines of the nodes of group `g`.
pub open spec fn group_lines(nodes: Seq<Node>, g: nat) -> Seq<char>
    decreases nodes.len(),
{
    if nodes.len() == 0 {
        Seq::empty()
    } else {
        group_lines(nodes.drop_last(), g) + if nodes.last().boundary_group_index == Some(g as usize) {
            node_line("        "@, (nodes.len() - 1) as nat, nodes.last())
        } else {
            Seq::empty()
        }
    }
}

pub open spec fn cluster(nodes: Seq<Node>, g: nat) -> Seq<char> {
    "    subgraph cluster_"@ + decimal(g) + " {\n"@ + group_lines(nodes, g) + "    }\n"@
}

/// Clusters of the groups below `count`.
pub open spec fn clusters(nodes: Seq<Node>, count: nat) -> Seq<char>
    decreases count,
{
    if count == 0 {
        Seq::empty()
    } else {
        clusters(nodes, (count - 1) as nat) + cluster(nodes, (count - 1) as nat)
    }
}

/// One more than the largest group index (at most `usize::MAX`), zero without
/// groups.
pub open spec fn group_count(nodes: Seq<Node>) -> nat
    decreases nodes.len(),
{
    if nodes.len() == 0 {
        0
    } else {
        let c = group_count(nodes.drop_last());
        match nodes.last().boundary_group_index {
            Some(g) => if g >= c {
                if g == usize::MAX {
                    usize::MAX as nat
                } else {
                    (g + 1) as nat
                }
            } else {
                c
            },
            None => c,
        }
    }
}

pub open spec fn edge_line(e: (usize, usize, Edge)) -> Seq<char> {
    "    node_"@ + decimal(e.0 as nat) + " -- node_"@ + decimal(e.1 as nat) + " [ label = \""@
        + conductance_text(e.2.conductance) + "\" ]\n"@
}

pub open spec fn edge_lines(edges: Seq<(usize, usize, Edge)>) -> Seq<char>
    decreases edges.len(),
{
    if edges.len() == 0 {
        Seq::empty()
    } else {
        edge_lines(edges.drop_last()) + edge_line(edges.last())
    }
}

/// The Graphviz text of a graph with these nodes and edges.
pub open spec fn dot_spec(nodes: Seq<Node>, edges: Seq<(usize, usize, Edge)>) -> Seq<char> {
    "graph {\n"@ + ungrouped_lines(nodes) + clusters(nodes, group_count(nodes)) + edge_lines(edges)
        + "}\n"@
}

fn digit_text(d: u128) -> (r: &'static str)
    requires
        d < 10,
    ensures
        r@ == digit(d as int),
{
    if d == 0 {
        "0"
    } else if d == 1 {
        "1"
    } else if d == 2 {
        "2"
    } else if d == 3 {
        "3"
    } else if d == 4 {
        "4"
    } else if d == 5 {
        "5"
    } else if d == 6 {
        "6"
    } else if d == 7 {
        "7"
    } else if d == 8 {
        "8"
    } else {
        "9"
    }
}

fn push_decimal(out: &mut String, n: u128)
    ensures
        final(out)@ == old(out)@ + decimal(n as nat),
    decreases n,
{
    if n >= 10 {
        push_decimal(out, n / 10);
    }
    let ghost before = out@;
    out.append(digit_text(n % 10));
    proof {
        if n >= 10 {
            assert(final(out)@ =~= old(out)@ + decimal(n as nat));
        } else {
            assert(n % 10 == n);
        }
    }
}

fn push_padded(out: &mut String, n: u128, width: u32)
    ensures
        final(out)@ == old(out)@ + padded(n as nat, width as nat),
    decreases width,
{
    if width > 0 {
        push_padded(out, n / 10, width - 1);
        out.append(digit_text(n % 10));
        assert(final(out)@ =~= old(out)@ + padded(n as nat, width as nat));
    } else {
        assert(final(out)@ =~= old(out)@ + padded(n as nat, width as nat));
    }
}

fn push_fixed(out: &mut String, micro: u128)
    ensures
        final(out)@ == old(out)@ + fixed_text(micro as nat),
{
    let ghost start = out@;
    push_decimal(out, micro / 1_000_000);
    out.append(".");
    push_padded(out, micro % 1_000_000, 6);
    assert(out@ =~= start + fixed_text(micro as nat));
}

fn push_node_line(out: &mut String, indent: &str, i: usize, n: &Node)
    ensures
        final(out)@ == old(out)@ + node_line(indent@, i as nat, *n),
{
    let ghost start = out@;
    out.append(indent);
    out.append("node_");
    push_decimal(out, i as u128);
    out.append(" [ label = \"");
    let ghost before_label = out@;
    match &n.zone_name {
        Some(z) => {
            out.append(z.as_str());
            out.append("\\n");
        },
        None => {},
    }
    match &n.marker {
        Some(tag) => {
            out.append(tag.0.as_str());
            out.append("/");
            out.append(tag.1.as_str());
            out.append("\\n");
        },
        None => {},
    }
    match n.heat_capacity {
        HeatCapacity::Finite(c) => {
            push_fixed(out, c);
            out.append(" J/K");
        },
        HeatCapacity::Infinite => {
            out.append("inf J/K");
        },
    }
    assert(out@ =~= before_label + node_label(*n));
    out.append("\" ]\n");
    assert(out@ =~= start + node_line(indent@, i as nat, *n));
}

fn push_edge_line(out: &mut String, a: usize, b: usize, e: Edge)
    ensures
        final(out)@ == old(out)@ + edge_line((a, b, e)),
{
    let ghost start = out@;
    out.append("    node_");
    push_decimal(out, a as u128);
    out.append(" -- node_");
    push_decimal(out, b as u128);
    out.append(" [ label = \"");
    let ghost before_label = out@;
    match e.conductance {
        ThermalConductance::Finite(c) => {
            push_fixed(out, c);
            out.append(" W/K");
        },
        ThermalConductance::Infinite => {
            out.append("inf W/K");
        },
    }
    assert(out@ =~= before_label + conductance_text(e.conductance));
    out.append("\" ]\n");
    assert(out@ =~= start + edge_line((a, b, e)));
}

impl RcNetwork {
    /// The network as a Graphviz graph, the nodes of each boundary in a cluster.
    pub fn to_dot(&self) -> (r: String)
        ensures
            r@ == dot_spec(graph_nodes(self.graph), graph_edges(self.graph)),
    {
        let g = &self.graph;
        let ghost nodes = graph_nodes(self.graph);
        let ghost edges = graph_edges(self.graph);
        let n = node_count(g);

        let mut count: usize = 0;
        let mut i: usize = 0;
        while i < n
            invariant
                n == nodes.len(),
                nodes == graph_nodes(*g),
                i <= n,
                count == group_count(nodes.take(i as int)),
            decreases n - i,
        {
            proof {
                assert(nodes.take(i + 1).drop_last() =~= nodes.take(i as int));
            }
            match node_weight(g, i).boundary_group_index {
                Some(group) => {
                    if group >= count {
                        if group == usize::MAX {
                            count = usize::MAX;
                        } else {
                            count = group + 1;
                        }
                    }
                },
                None => {},
            }
            i += 1;
        }
        assert(nodes.take(n as int) =~= nodes);

        let mut out = String::from_str("graph {\n");
        let ghost head = out@;
        let mut i: usize = 0;
        while i < n
            invariant
                n == nodes.len(),
                nodes == graph_nodes(*g),
                i <= n,
                out@ == head + ungrouped_lines(nodes.take(i as int)),
            decreases n - i,
        {
            proof {
                assert(nodes.take(i + 1).drop_last() =~= nodes.take(i as int));
            }
            let node = node_weight(g, i);
            if node.boundary_group_index.is_none() {
                push_node_line(&mut out, "    ", i, node);
            }
            proof {
                assert(out@ =~= head + ungrouped_lines(nodes.take(i + 1)));
            }
            i += 1;
        }
        assert(nodes.take(n as int) =~= nodes);
        let ghost after_ungrouped = out@;

        let mut c: usize = 0;
        while c < count
            invariant
                n == nodes.len(),
                nodes == graph_nodes(*g),
                c <= count,
                out@ == after_ungrouped + clusters(nodes, c as nat),
            decreases count - c,
        {
            let ghost before_cluster = out@;
            out.append("    subgraph cluster_");
            push_decimal(&mut out, c as u128);
            out.append(" {\n");
            let ghost cluster_head = out@;
            let mut i: usize = 0;
            while i < n
                invariant
                    n == nodes.len(),
                    nodes == graph_nodes(*g),
                    i <= n,
                    out@ == cluster_head + group_lines(nodes.take(i as int), c as nat),
                decreases n - i,
            {
                proof {
                    assert(nodes.take(i + 1).drop_last() =~= nodes.take(i as int));
                }
                let node = node_weight(g, i);
                match node.boundary_group_index {
                    Some(group) => {
                        if group == c {
                            push_node_line(&mut out, "        ", i, node);
                        }
                    },
                    None => {},
                }
                proof {
                    assert(out@ =~= cluster_head + group_lines(nodes.take(i + 1), c as nat));
                }
                i += 1;
            }
            assert(nodes.take(n as int) =~= nodes);
            out.append("    }\n");
            assert(out@ =~= before_cluster + cluster(nodes, c as nat));
            c += 1;
        }
        let ghost after_clusters = out@;

        let m = edge_count(g);
        let mut e: usize = 0;
        while e < m
            invariant
                m == edges.len(),
                edges == graph_edges(*g),
                e <= m,
                out@ == after_clusters + edge_lines(edges.take(e as int)),
            decreases m - e,
        {
            proof {
                assert(edges.take(e + 1).drop_last() =~= edges.take(e as int));
            }
            let (a, b) = edge_endpoints(g, e);
            let weight = edge_weight(g, e);
            push_edge_line(&mut out, a, b, weight);
            proof {
                assert(out@ =~= after_clusters + edge_lines(edges.take(e + 1)));
            }
            e += 1;
        }
        assert(edges.take(m as int) =~= edges);
        out.append("}\n");
        assert(out@ =~= dot_spec(nodes, edges));
        out
    }
}

} // verus!
