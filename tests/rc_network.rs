use mpc_home_control::as_loaded;
use mpc_home_control::model::{BoundaryType, Model};
use mpc_home_control::rc_network::{air_convection_conductance, Edge, Node, RcNetwork};
use mpc_home_control::units::{
    Area, HeatCapacity, HeatTransfer, Length, MassDensity, Ratio, SpecificHeatCapacity,
    ThermalConductance, ThermalConductivity, Velocity, Volume,
};
use petgraph::graph::NodeIndex;

const M: u64 = 1_000_000;

fn material(k: u64, cp: u64, rho: u64) -> as_loaded::Material {
    as_loaded::Material {
        thermal_conductivity: ThermalConductivity { micro: k * M },
        specific_heat_capacity: SpecificHeatCapacity { micro: cp * M },
        density: MassDensity { micro: rho * M },
    }
}

fn zone(volume: u64) -> as_loaded::Zone {
    as_loaded::Zone {
        volume: Some(Volume { micro: volume * M }),
        adjacent_zones: vec![],
    }
}

fn layer(material: &str, thickness: u64) -> as_loaded::BoundaryLayer {
    as_loaded::BoundaryLayer::Layer {
        material: material.into(),
        thickness: Length {
            micro: thickness * M,
        },
    }
}

fn marker(m: &str) -> as_loaded::BoundaryLayer {
    as_loaded::BoundaryLayer::Marker { marker: m.into() }
}

fn boundary(bt: &str, z1: &str, z2: &str, area: u64) -> as_loaded::Boundary {
    as_loaded::Boundary {
        boundary_type: bt.into(),
        zones: (z1.into(), z2.into()),
        area: Area { micro: area * M },
        sub_boundaries: vec![],
    }
}

/// Two rooms, a three-marker wall used twice and a window.
fn sample_model() -> Model {
    let doc = as_loaded::Model {
        materials: vec![
            ("air".into(), material(1, 1, 1)),
            ("m1".into(), material(1, 2, 3)),
            ("m2".into(), material(4, 5, 6)),
        ],
        boundary_types: vec![
            (
                "bt".into(),
                as_loaded::BoundaryType::Layered {
                    layers: vec![
                        marker("x"),
                        layer("m1", 1),
                        marker("y"),
                        layer("m2", 1),
                        marker("z"),
                    ],
                },
            ),
            (
                "window".into(),
                as_loaded::BoundaryType::Simple {
                    u: HeatTransfer { micro: M },
                    g: Ratio { micro: 2 * M },
                },
            ),
        ],
        zones: vec![("a".into(), zone(123)), ("b".into(), zone(234))],
        boundaries: vec![
            boundary("bt", "a", "b", 10),
            boundary("bt", "a", "ground", 100),
            boundary("window", "a", "outside", 100),
        ],
    };
    Model::try_from(doc).unwrap()
}

fn node(net: &RcNetwork, i: usize) -> &Node {
    net.graph.node_weight(NodeIndex::new(i)).unwrap()
}

fn edge_between(net: &RcNetwork, a: usize, b: usize) -> Edge {
    let e = net
        .graph
        .find_edge(NodeIndex::new(a), NodeIndex::new(b))
        .unwrap();
    *net.graph.edge_weight(e).unwrap()
}

fn finite(c: HeatCapacity) -> u128 {
    match c {
        HeatCapacity::Finite(c) => c,
        HeatCapacity::Infinite => 0,
    }
}

#[test]
fn node_access() {
    let model = sample_model();
    let net = RcNetwork::from(&model);

    let a = net.zone_node("a").unwrap();
    let b = net.zone_node("b").unwrap();
    let ground = net.zone_node("ground").unwrap();
    let outside = net.zone_node("outside").unwrap();

    assert_eq!(
        node(&net, a),
        &Node {
            zone_name: Some("a".into()),
            marker: None,
            heat_capacity: HeatCapacity::Finite(123_000_000),
            boundary_group_index: None
        }
    );
    assert_eq!(
        node(&net, b),
        &Node {
            zone_name: Some("b".into()),
            marker: None,
            heat_capacity: HeatCapacity::Finite(234_000_000),
            boundary_group_index: None
        }
    );

    let ax = net.marker_nodes("a", "x");
    let ay = net.marker_nodes("a", "y");
    let az = net.marker_nodes("a", "z");
    assert_eq!(ax.len(), 2);

    assert!(net
        .graph
        .contains_edge(NodeIndex::new(b), NodeIndex::new(az[0])));
    assert!(net
        .graph
        .contains_edge(NodeIndex::new(ground), NodeIndex::new(az[1])));
    assert!(net
        .graph
        .contains_edge(NodeIndex::new(a), NodeIndex::new(outside)));

    for i in 0..2 {
        println!("Loop index {}", i); // For easier debugging, should an assert fail in this loop

        let multiplier = ((9 * i) + 1) as u128;
        assert_eq!(
            node(&net, ax[i]),
            &Node {
                zone_name: None,
                marker: Some(("a".into(), "x".into())),
                heat_capacity: HeatCapacity::Finite(30_000_000 * multiplier),
                boundary_group_index: Some(i),
            }
        );
        assert_eq!(
            node(&net, ay[i]),
            &Node {
                zone_name: None,
                marker: Some(("a".into(), "y".into())),
                heat_capacity: HeatCapacity::Finite(180_000_000 * multiplier),
                boundary_group_index: Some(i),
            }
        );
        assert_eq!(
            node(&net, az[i]),
            &Node {
                zone_name: None,
                marker: Some(("a".into(), "z".into())),
                heat_capacity: HeatCapacity::Finite(150_000_000 * multiplier),
                boundary_group_index: Some(i),
            }
        );

        assert!(net
            .graph
            .contains_edge(NodeIndex::new(a), NodeIndex::new(ax[i])));

        assert_eq!(
            edge_between(&net, ax[i], ay[i]),
            Edge {
                conductance: ThermalConductance::Finite(10_000_000 * multiplier),
            }
        );
        assert_eq!(
            edge_between(&net, ay[i], az[i]),
            Edge {
                conductance: ThermalConductance::Finite(40_000_000 * multiplier),
            }
        );
    }
}

#[test]
fn marker_faces_and_film_edges() {
    let model = sample_model();
    let net = RcNetwork::from(&model);
    let a = net.zone_node("a").unwrap();
    let b = net.zone_node("b").unwrap();
    let ax = net.marker_nodes("a", "x");
    let az = net.marker_nodes("a", "z");
    // film conductance 12.12 W/(m²·K) over 10 m² on both faces
    assert_eq!(
        edge_between(&net, a, ax[0]),
        Edge {
            conductance: ThermalConductance::Finite(121_200_000)
        }
    );
    assert_eq!(
        edge_between(&net, az[0], b),
        Edge {
            conductance: ThermalConductance::Finite(121_200_000)
        }
    );
    assert!(net.marker_nodes("b", "x").is_empty());
    assert!(net.marker_nodes("a", "w").is_empty());
    assert_eq!(net.zone_node("nowhere"), None);
}

#[test]
fn simple_boundary_series_conductance() {
    let model = sample_model();
    let net = RcNetwork::from(&model);
    let a = net.zone_node("a").unwrap();
    let outside = net.zone_node("outside").unwrap();
    // films of 1212 W/K on both sides and 100 W/K through the window:
    // 1 / (1/1212 + 1/100 + 1/1212) = 1212 * 100 / 1412
    assert_eq!(
        edge_between(&net, a, outside),
        Edge {
            conductance: ThermalConductance::Finite(1_212_000_000u128 * 100_000_000 / 1_412_000_000)
        }
    );
}

#[test]
fn graph_node_count() {
    let model = sample_model();
    let mut expected_node_count = model.zones.len();
    let mut expected_edge_count = 0;
    for boundary in model.boundaries.iter() {
        match &model.boundary_types[boundary.boundary_type] {
            BoundaryType::Simple { .. } => expected_edge_count += 1,
            BoundaryType::Layered { layers, .. } => {
                expected_node_count += layers.len() + 1;
                expected_edge_count += layers.len() + 2;
            }
        }
    }
    let net = RcNetwork::from(&model);
    assert_eq!(net.graph.node_count(), expected_node_count);
    assert_eq!(net.graph.edge_count(), expected_edge_count);
    assert_eq!(net.graph.node_count(), 4 + 3 + 3);
    assert_eq!(net.graph.edge_count(), 4 + 4 + 1);
}

#[test]
fn heat_capacity_sum() {
    let model = sample_model();
    let net = RcNetwork::from(&model);
    let total: u128 = net
        .graph
        .node_weights()
        .map(|n| finite(n.heat_capacity))
        .sum();
    // zones: 123 + 234 J/K; each wall: (60 + 300) J/K per 10 m²
    let expected: u128 = (123 + 234 + 360 + 3600) * 1_000_000;
    assert_eq!(total, expected);
}

#[test]
fn build_is_deterministic() {
    let model = sample_model();
    let first = RcNetwork::from(&model);
    let second = RcNetwork::from(&model);
    assert_eq!(first.graph.node_count(), second.graph.node_count());
    assert_eq!(first.graph.edge_count(), second.graph.edge_count());
    let n1: Vec<&Node> = first.graph.node_weights().collect();
    let n2: Vec<&Node> = second.graph.node_weights().collect();
    assert_eq!(n1, n2);
    let e1: Vec<&Edge> = first.graph.edge_weights().collect();
    let e2: Vec<&Edge> = second.graph.edge_weights().collect();
    assert_eq!(e1, e2);
}

#[test]
fn air_convection_conductance_example() {
    for (speed, expected) in [(3u64, 27.4f64), (8, 35.2), (13, 39.3), (18, 41.6)] {
        let h = air_convection_conductance(Velocity { micro: speed * M });
        let value = h.micro as f64 / 1e6;
        assert!(
            (value - expected).abs() <= 1.5,
            "{} m/s: {} instead of {}",
            speed,
            value,
            expected
        );
    }
}

#[test]
fn air_convection_conductance_at_rest() {
    assert_eq!(
        air_convection_conductance(Velocity { micro: 0 }),
        HeatTransfer { micro: 12_120_000 }
    );
}

#[test]
fn odd_layer_capacity_is_conserved() {
    // A single 1 µm layer of unit material over 1.000001 m² has an odd capacity.
    let doc = as_loaded::Model {
        materials: vec![("m".into(), material(1, 1, 1))],
        boundary_types: vec![(
            "w".into(),
            as_loaded::BoundaryType::Layered {
                layers: vec![as_loaded::BoundaryLayer::Layer {
                    material: "m".into(),
                    thickness: Length { micro: 3 },
                }],
            },
        )],
        zones: vec![],
        boundaries: vec![as_loaded::Boundary {
            boundary_type: "w".into(),
            zones: ("outside".into(), "ground".into()),
            area: Area { micro: M },
            sub_boundaries: vec![],
        }],
    };
    let model = Model::try_from(doc).unwrap();
    let net = RcNetwork::from(&model);
    let caps: Vec<u128> = net
        .graph
        .node_weights()
        .map(|n| finite(n.heat_capacity))
        .collect();
    assert_eq!(caps, vec![0, 0, 1, 2]);
}

#[test]
fn largest_quantities_build() {
    let max = mpc_home_control::units::MAX_MAGNITUDE;
    let big = as_loaded::Material {
        thermal_conductivity: ThermalConductivity { micro: max },
        specific_heat_capacity: SpecificHeatCapacity { micro: max },
        density: MassDensity { micro: max },
    };
    let doc = as_loaded::Model {
        materials: vec![("air".into(), big), ("big".into(), big)],
        boundary_types: vec![
            (
                "thick".into(),
                as_loaded::BoundaryType::Layered {
                    layers: vec![as_loaded::BoundaryLayer::Layer {
                        material: "big".into(),
                        thickness: Length { micro: max },
                    }],
                },
            ),
            (
                "glass".into(),
                as_loaded::BoundaryType::Simple {
                    u: HeatTransfer { micro: max },
                    g: Ratio { micro: max },
                },
            ),
        ],
        zones: vec![(
            "hall".into(),
            as_loaded::Zone {
                volume: Some(Volume { micro: max }),
                adjacent_zones: vec![],
            },
        )],
        boundaries: vec![
            as_loaded::Boundary {
                boundary_type: "thick".into(),
                zones: ("hall".into(), "outside".into()),
                area: Area { micro: max },
                sub_boundaries: vec![],
            },
            as_loaded::Boundary {
                boundary_type: "glass".into(),
                zones: ("hall".into(), "ground".into()),
                area: Area { micro: max },
                sub_boundaries: vec![],
            },
        ],
    };
    let model = Model::try_from(doc).unwrap();
    let net = RcNetwork::from(&model);
    let hall = net.zone_node("hall").unwrap();
    // 10^6 m³ of a material of 10^6 kg/m³ and 10^6 J/(kg·K): 10^18 J/K
    assert_eq!(
        node(&net, hall).heat_capacity,
        HeatCapacity::Finite(1_000_000_000_000_000_000_000_000)
    );
    // a layer of 10^6 m over 10^6 m² of the same material: 10^24 J/K, split in two
    let total: u128 = net
        .graph
        .node_weights()
        .filter(|n| n.boundary_group_index.is_some())
        .map(|n| finite(n.heat_capacity))
        .sum();
    assert_eq!(total, 1_000_000_000_000_000_000_000_000_000_000);
    assert_eq!(net.graph.edge_count(), 4);
}

#[test]
fn dot_of_a_small_network() {
    let doc = as_loaded::Model {
        materials: vec![],
        boundary_types: vec![(
            "window".into(),
            as_loaded::BoundaryType::Simple {
                u: HeatTransfer { micro: M },
                g: Ratio { micro: 0 },
            },
        )],
        zones: vec![("a".into(), zone(1))],
        boundaries: vec![boundary("window", "a", "outside", 1)],
    };
    let model = Model::try_from(doc).unwrap();
    let net = RcNetwork::from(&model);
    assert_eq!(
        net.to_dot(),
        "graph {\n\
         \x20   node_0 [ label = \"a\\n1213.388000 J/K\" ]\n\
         \x20   node_1 [ label = \"outside\\ninf J/K\" ]\n\
         \x20   node_2 [ label = \"ground\\ninf J/K\" ]\n\
         \x20   node_0 -- node_1 [ label = \"0.858356 W/K\" ]\n\
         }\n"
    );
}

#[test]
fn dot_clusters_boundaries() {
    let net = RcNetwork::from(&sample_model());
    let dot = net.to_dot();
    assert!(dot.contains("    subgraph cluster_0 {\n        node_4 [ label = \"a/x\\n30.000000 J/K\" ]\n"));
    assert!(dot.contains("    subgraph cluster_1 {\n"));
    assert!(!dot.contains("cluster_2"));
    assert!(dot.contains("    node_4 -- node_5 [ label = \"10.000000 W/K\" ]\n"));
}
