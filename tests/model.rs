use mpc_home_control::as_loaded;
use mpc_home_control::error::ModelError;
use mpc_home_control::model::{Boundary, BoundaryLayer, BoundaryType, Material, Model, Zone};
use mpc_home_control::units::{
    Area, HeatCapacity, HeatTransfer, Length, MassDensity, Ratio, SpecificHeatCapacity,
    ThermalConductance, ThermalConductivity, Volume,
};

const M: u64 = 1_000_000;

fn material(k: u64, cp: u64, rho: u64) -> as_loaded::Material {
    as_loaded::Material {
        thermal_conductivity: ThermalConductivity { micro: k * M },
        specific_heat_capacity: SpecificHeatCapacity { micro: cp * M },
        density: MassDensity { micro: rho * M },
    }
}

fn simple() -> as_loaded::BoundaryType {
    as_loaded::BoundaryType::Simple {
        u: HeatTransfer { micro: 0 },
        g: Ratio { micro: 0 },
    }
}

fn zone(volume: u64) -> as_loaded::Zone {
    as_loaded::Zone {
        volume: Some(Volume { micro: volume * M }),
        adjacent_zones: vec![],
    }
}

fn layer(material: &str, thickness_micro: u64) -> as_loaded::BoundaryLayer {
    as_loaded::BoundaryLayer::Layer {
        material: material.into(),
        thickness: Length {
            micro: thickness_micro,
        },
    }
}

fn marker(m: &str) -> as_loaded::BoundaryLayer {
    as_loaded::BoundaryLayer::Marker { marker: m.into() }
}

fn boundary(bt: &str, z1: &str, z2: &str, area: u64, subs: Vec<(&str, u64)>) -> as_loaded::Boundary {
    as_loaded::Boundary {
        boundary_type: bt.into(),
        zones: (z1.into(), z2.into()),
        area: Area { micro: area * M },
        sub_boundaries: subs
            .into_iter()
            .map(|(t, a)| as_loaded::SubBoundary {
                boundary_type: t.into(),
                area: Area { micro: a * M },
            })
            .collect(),
    }
}

fn empty_document() -> as_loaded::Model {
    as_loaded::Model {
        zones: vec![],
        boundaries: vec![],
        materials: vec![],
        boundary_types: vec![],
    }
}

/// Provide an example list of converted materials
fn converted_materials() -> Vec<Material> {
    vec![
        material(123, 456, 789).convert("mat1".into()),
        material(23, 56, 89).convert("mat2".into()),
    ]
}

fn load_error(doc: as_loaded::Model) -> String {
    match Model::try_from(doc) {
        Ok(_) => panic!("the document should have been rejected"),
        Err(e) => e.message(),
    }
}

#[test]
fn convert_material() {
    let input = material(123, 456, 789);
    let output = input.convert("qwertyuiop".into());
    assert_eq!(output.name, "qwertyuiop");
    assert_eq!(output.thermal_conductivity, ThermalConductivity { micro: 123 * M });
    assert_eq!(output.specific_heat_capacity, SpecificHeatCapacity { micro: 456 * M });
    assert_eq!(output.density, MassDensity { micro: 789 * M });
}

#[test]
fn convert_boundary_layer() {
    let input = layer("mat1", 200_000);
    let materials = converted_materials();
    let output = input.convert(&"somename".to_string(), &materials).unwrap();
    assert_eq!(
        output,
        BoundaryLayer {
            thickness: Length { micro: 200_000 },
            material: 0,
            following_marker: None
        }
    );
    assert_eq!(materials[output.material].name, "mat1");
}

#[test]
fn convert_boundary_type_layered_intial_marker() {
    let input = as_loaded::BoundaryType::Layered {
        layers: vec![marker("A DUCK!"), layer("mat1", M), layer("mat2", 2 * M)],
    };
    let materials = converted_materials();
    let output = input.convert("somename".to_string(), &materials).unwrap();
    assert_eq!(
        output,
        BoundaryType::Layered {
            name: "somename".into(),
            layers: vec![
                BoundaryLayer {
                    thickness: Length { micro: M },
                    material: 0,
                    following_marker: None,
                },
                BoundaryLayer {
                    thickness: Length { micro: 2 * M },
                    material: 1,
                    following_marker: None,
                },
            ],
            initial_marker: Some("A DUCK!".into()),
        }
    );
}

#[test]
fn convert_boundary_type_layered_marker_inside() {
    for i in 1usize..4 {
        let mut layers = vec![layer("mat1", M), layer("mat2", 2 * M), layer("mat2", 3 * M)];
        layers.insert(i, marker("asdf"));
        let input = as_loaded::BoundaryType::Layered { layers };
        let output = input
            .convert("somename".to_string(), &converted_materials())
            .unwrap();
        match output {
            BoundaryType::Layered {
                layers,
                initial_marker,
                ..
            } => {
                assert!(initial_marker.is_none());
                assert_eq!(layers.len(), 3);
                for (j, l) in layers.iter().enumerate() {
                    if j == i - 1 {
                        assert_eq!(l.following_marker, Some("asdf".into()));
                    } else {
                        assert!(l.following_marker.is_none());
                    }
                }
            }
            BoundaryType::Simple { .. } => panic!("expected a layered boundary type"),
        }
    }
}

#[test]
fn convert_boundary_type_simple() {
    let input = as_loaded::BoundaryType::Simple {
        u: HeatTransfer { micro: 123 * M },
        g: Ratio { micro: 900_000 },
    };
    let output = input.convert("somename".to_string(), &vec![]).unwrap();
    assert_eq!(
        output,
        BoundaryType::Simple {
            name: "somename".into(),
            u: HeatTransfer { micro: 123 * M },
            g: Ratio { micro: 900_000 }
        }
    );
}

#[test]
fn convert_boundary_type_layered_missing_material() {
    let input = as_loaded::BoundaryType::Layered {
        layers: vec![layer("matX", M), layer("mat2", 2 * M)],
    };
    let error = input
        .convert("somename".to_string(), &converted_materials())
        .unwrap_err();
    assert_eq!(
        error,
        ModelError::MissingMaterial {
            boundary_type: "somename".into(),
            material: "matX".into()
        }
    );
    let message = error.message();
    assert!(
        message.contains("material"),
        "Error message should contain what type of object was missing"
    );
    assert!(
        message.contains("matX"),
        "Error message should contain the name of the object"
    );
    assert!(message.contains("somename"));
}

#[test]
fn convert_boundary_type_no_layers() {
    let input = as_loaded::BoundaryType::Layered { layers: vec![] };
    let error = input
        .convert("somename".to_string(), &converted_materials())
        .unwrap_err();
    assert_eq!(
        error,
        ModelError::EmptyLayers {
            boundary_type: "somename".into()
        }
    );
    assert!(
        error.message().contains("somename"),
        "Error message should contain the name of the bad boundary type"
    );
}

#[test]
fn convert_boundary_type_only_marker() {
    let input = as_loaded::BoundaryType::Layered {
        layers: vec![marker("X")],
    };
    let error = input
        .convert("somename".to_string(), &converted_materials())
        .unwrap_err();
    assert_eq!(
        error,
        ModelError::NoMaterialLayer {
            boundary_type: "somename".into()
        }
    );
    assert!(
        error.message().contains("somename"),
        "Error message should contain the name of the bad boundary type"
    );
}

#[test]
fn convert_boundary_type_successive_markers() {
    let input = as_loaded::BoundaryType::Layered {
        layers: vec![
            layer("mat1", M),
            marker("ONE DUCK!"),
            marker("TWO DUCK!"),
            layer("mat2", 2 * M),
        ],
    };
    let error = input
        .convert("somename".to_string(), &converted_materials())
        .unwrap_err();
    assert_eq!(
        error,
        ModelError::ConsecutiveMarkers {
            boundary_type: "somename".into()
        }
    );
    assert!(
        error.message().contains("somename"),
        "Error message should contain the name of the bad boundary type"
    );
}

/// Tests the conversion of a minimal valid model
#[test]
fn convert_model_minimal() {
    let output = Model::try_from(empty_document()).unwrap();
    assert_eq!(output.zones.len(), 2); // Outside and ground are always there
    assert!(output.boundaries.is_empty());
}

#[test]
fn convert_model_zones() {
    let mut input = empty_document();
    input.zones = vec![("z1".into(), zone(1)), ("z2".into(), zone(2))];
    let output = Model::try_from(input).unwrap();
    assert_eq!(
        output.zones,
        vec![
            Zone {
                name: "z1".into(),
                volume: Some(Volume { micro: M })
            },
            Zone {
                name: "z2".into(),
                volume: Some(Volume { micro: 2 * M })
            },
            Zone {
                name: "outside".into(),
                volume: None
            },
            Zone {
                name: "ground".into(),
                volume: None
            },
        ]
    );
}

#[test]
fn convert_model_override_builtin_zone_outside() {
    let mut input = empty_document();
    input.zones = vec![("outside".into(), zone(1))];
    let message = load_error(input);
    assert!(message.contains("reserved zone"));
    assert!(message.contains("outside"));
}

#[test]
fn convert_model_override_builtin_zone_ground() {
    let mut input = empty_document();
    input.zones = vec![("ground".into(), zone(1))];
    let message = load_error(input);
    assert!(message.contains("reserved zone"));
    assert!(message.contains("ground"));
}

#[test]
fn convert_model_boundaries() {
    let mut input = empty_document();
    input.zones = vec![("z1".into(), zone(1)), ("z2".into(), zone(2))];
    input.boundaries = vec![boundary("bt1", "z1", "z2", 123, vec![("bt2", 1), ("bt3", 2)])];
    input.boundary_types = vec![
        ("bt1".into(), simple()),
        ("bt2".into(), simple()),
        ("bt3".into(), simple()),
    ];
    let output = Model::try_from(input).unwrap();
    assert_eq!(
        output.boundaries,
        vec![
            Boundary {
                boundary_type: 1,
                zones: (0, 1),
                area: Area { micro: M },
            },
            Boundary {
                boundary_type: 2,
                zones: (0, 1),
                area: Area { micro: 2 * M },
            },
            Boundary {
                boundary_type: 0,
                zones: (0, 1),
                area: Area { micro: 120 * M },
            },
        ]
    );
    assert_eq!(
        output.boundary_types[0],
        BoundaryType::Simple {
            name: "bt1".into(),
            u: HeatTransfer { micro: 0 },
            g: Ratio { micro: 0 }
        }
    );
}

#[test]
fn convert_model_sub_boundary_areas_add_up() {
    let mut input = empty_document();
    input.zones = vec![("z1".into(), zone(1)), ("z2".into(), zone(2))];
    input.boundaries = vec![boundary(
        "t1",
        "z1",
        "z2",
        100,
        vec![("t2", 3), ("t3", 1), ("t4", 4)],
    )];
    input.boundary_types = vec![
        ("t1".into(), simple()),
        ("t2".into(), simple()),
        ("t3".into(), simple()),
        ("t4".into(), simple()),
    ];
    let output = Model::try_from(input).unwrap();
    let areas: Vec<u64> = output.boundaries.iter().map(|b| b.area.micro / M).collect();
    assert_eq!(areas, vec![3, 1, 4, 92]);
    assert!(output.boundaries.iter().all(|b| b.zones == (0, 1)));
    let types: Vec<usize> = output.boundaries.iter().map(|b| b.boundary_type).collect();
    assert_eq!(types, vec![1, 2, 3, 0]);
    assert_eq!(output.boundaries.iter().map(|b| b.area.micro).sum::<u64>(), 100 * M);
}

#[test]
fn convert_model_sub_boundaries_fill_area() {
    let mut input = empty_document();
    input.zones = vec![("z1".into(), zone(1))];
    input.boundaries = vec![boundary("bt", "z1", "outside", 5, vec![("bt", 5)])];
    input.boundary_types = vec![("bt".into(), simple())];
    let output = Model::try_from(input).unwrap();
    assert_eq!(output.boundaries.len(), 2);
    assert_eq!(output.boundaries[1].area, Area { micro: 0 });
    assert_eq!(output.boundaries[0].zones, (0, 1));
}

#[test]
fn convert_model_too_large_sub_boundaries() {
    let mut input = empty_document();
    input.zones = vec![("z1".into(), zone(1)), ("z2".into(), zone(2))];
    input.boundaries = vec![boundary("bt", "z1", "z2", 1, vec![("bt", 2)])];
    input.boundary_types = vec![("bt".into(), simple())];
    let message = load_error(input);
    assert!(
        message.contains("sub-boundaries"),
        "Error message should say that there's a problem with sub boundary"
    );
    assert!(
        message.contains("z1"),
        "Error message should contain the name of the problematic zones"
    );
    assert!(
        message.contains("z2"),
        "Error message should contain the name of the problematic zones"
    );
}

#[test]
fn convert_model_bad_zone_link() {
    let mut input = empty_document();
    input.zones = vec![("goodzone".into(), zone(1))];
    input.boundaries = vec![boundary("bt", "goodzone", "badzone", 1, vec![])];
    input.boundary_types = vec![("bt".into(), simple())];
    let message = load_error(input);
    assert!(
        message.contains("zone"),
        "Error message should say that there's a problem with a zone"
    );
    assert!(
        message.contains("badzone"),
        "Error message should contain the name of the problematic zone"
    );
    assert!(message.contains("goodzone"));
}

#[test]
fn convert_model_missing_boundary_type() {
    let mut input = empty_document();
    input.zones = vec![("a".into(), zone(1))];
    input.boundaries = vec![boundary("nope", "a", "ground", 1, vec![])];
    match Model::try_from(input) {
        Err(ModelError::MissingBoundaryType {
            zones,
            boundary_type,
        }) => {
            assert_eq!(zones, ("a".to_string(), "ground".to_string()));
            assert_eq!(boundary_type, "nope");
        }
        _ => panic!("expected a missing boundary type"),
    }
}

#[test]
fn convert_model_defined_air() {
    let mut input = empty_document();
    input.materials = vec![("air".into(), material(999, 999, 999))];
    let output = Model::try_from(input).unwrap();
    assert_eq!(output.materials.len(), 1);
    assert_eq!(
        output.materials[output.air],
        material(999, 999, 999).convert("air".into())
    );
}

#[test]
fn convert_model_default_air() {
    let output = Model::try_from(empty_document()).unwrap();
    assert_eq!(output.materials[output.air], Material::default_air());
    assert_eq!(output.materials[output.air].density, MassDensity { micro: 1_199_000 });
}

#[test]
fn convert_model_adjacent_zones() {
    let mut input = empty_document();
    input.zones = vec![(
        "room".into(),
        as_loaded::Zone {
            volume: Some(Volume { micro: 50 * M }),
            adjacent_zones: vec![as_loaded::AdjacentZone {
                suffix: "cavity".into(),
                boundary_type: "bt".into(),
                area: Area { micro: 7 * M },
            }],
        },
    )];
    input.boundary_types = vec![("bt".into(), simple())];
    let output = Model::try_from(input).unwrap();
    assert_eq!(output.zones[1].name, "room/cavity");
    assert_eq!(output.zones[1].volume, Some(Volume { micro: 0 }));
    assert_eq!(
        output.boundaries,
        vec![Boundary {
            boundary_type: 0,
            zones: (0, 1),
            area: Area { micro: 7 * M }
        }]
    );
}

#[test]
fn convert_model_layered_boundary_type_error_propagates() {
    let mut input = empty_document();
    input.boundary_types = vec![(
        "wall".into(),
        as_loaded::BoundaryType::Layered {
            layers: vec![layer("brick", M)],
        },
    )];
    let message = load_error(input);
    assert!(message.contains("wall"));
    assert!(message.contains("brick"));
}

#[test]
fn zone_heat_capacity_finite() {
    let z = Zone {
        name: String::new(),
        volume: Some(Volume { micro: M }),
    };
    let m = material(2, 3, 4).convert(String::new());
    assert_eq!(z.heat_capacity(&m), HeatCapacity::Finite(12_000_000));
}

#[test]
fn zone_heat_capacity_pathological() {
    let z = Zone {
        name: Default::default(),
        volume: None,
    };
    let m = material(0, 0, 0).convert(String::new());
    assert_eq!(z.heat_capacity(&m), HeatCapacity::Infinite);
}

#[test]
fn boundary_layer_heat_capacity() {
    let water = as_loaded::Material {
        thermal_conductivity: ThermalConductivity { micro: 598_000 },
        specific_heat_capacity: SpecificHeatCapacity { micro: 4180 * M },
        density: MassDensity { micro: 997 * M },
    }
    .convert("water".into());
    let bl = BoundaryLayer {
        material: 0,
        thickness: Length { micro: M },
        following_marker: None,
    };
    match bl.heat_capacity(&water, Area { micro: M }) {
        HeatCapacity::Finite(c) => {
            let joules = c / 1_000_000;
            assert!(joules.abs_diff(4_168_000) <= 1000);
        }
        HeatCapacity::Infinite => panic!("a layer has a finite heat capacity"),
    }
}

#[test]
fn boundary_layer_heat_capacity_exact() {
    let water = material(1, 4180, 997).convert("water".into());
    let bl = BoundaryLayer {
        material: 0,
        thickness: Length { micro: 500_000 },
        following_marker: None,
    };
    // 2 m² × 0.5 m × 997 kg/m³ × 4180 J/(kg·K)
    assert_eq!(
        bl.heat_capacity(&water, Area { micro: 2 * M }),
        HeatCapacity::Finite(4_167_460 * 1_000_000)
    );
}

#[test]
fn boundary_layer_conductance() {
    let water = as_loaded::Material {
        thermal_conductivity: ThermalConductivity { micro: 598_000 },
        specific_heat_capacity: SpecificHeatCapacity { micro: 4180 * M },
        density: MassDensity { micro: 997 * M },
    }
    .convert("water".into());
    let bl = BoundaryLayer {
        material: 0,
        thickness: Length { micro: 2 * M },
        following_marker: None,
    };
    assert_eq!(
        bl.conductance(&water, Area { micro: 4 * M }),
        ThermalConductance::Finite(1_196_000)
    );
}

#[test]
fn boundary_layer_conductance_zero_thickness() {
    let m = material(1, 1, 1).convert("m".into());
    let bl = BoundaryLayer {
        material: 0,
        thickness: Length { micro: 0 },
        following_marker: None,
    };
    assert_eq!(bl.conductance(&m, Area { micro: M }), ThermalConductance::Infinite);
}

#[test]
fn error_messages_name_the_entries() {
    let e = ModelError::MissingZone {
        zones: ("a".into(), "b".into()),
        zone: "b".into(),
    };
    assert_eq!(e.message(), "Boundary [\"a\", \"b\"]: could not find zone \"b\"");
    let e = ModelError::ReservedZone {
        zone: "outside".into(),
    };
    assert_eq!(
        e.message(),
        "'outside' is a reserved zone name and must not be defined in model"
    );
}
