//! The validated building model.
//!
//! Catalog entries are stored once, in arenas, and referred to by index: a
//! boundary layer names its material by its index in `Model::materials`, a
//! boundary names its type and its two zones by their indices.

use crate::units::{
    bounded, lemma_mul_bound, lemma_mul_spec_bound, mul_fixed, mul_spec, Area, HeatCapacity,
    HeatTransfer, Length, MassDensity, Ratio, SpecificHeatCapacity, ThermalConductance,
    ThermalConductivity, Volume, MAX_MAGNITUDE,
};
use vstd::prelude::*;

verus! {

/// A named substance with thermal properties.
#[derive(Clone, Debug, PartialEq)]
pub struct Material {
    pub name: String,
    pub thermal_conductivity: ThermalConductivity,
    pub specific_heat_capacity: SpecificHeatCapacity,
    pub density: MassDensity,
}

/// A named space. `volume == None` marks an outer zone (environment) of
/// infinite heat capacity.
#[derive(Clone, Debug, PartialEq)]
pub struct Zone {
    pub name: String,
    pub volume: Option<Volume>,
}

/// A zone with its name as a character sequence.
pub struct ZoneView {
    pub name: Seq<char>,
    pub volume: Option<Volume>,
}

impl View for Zone {
    type V = ZoneView;

    open spec fn view(&self) -> ZoneView {
        ZoneView { name: self.name@, volume: self.volume }
    }
}

/// One material layer of a layered boundary type.
#[derive(Clone, Debug, PartialEq)]
pub struct BoundaryLayer {
    /// Index of the layer's material in `Model::materials`.
    pub material: usize,
    pub thickness: Length,
    /// A name that can be used to address the interface following this layer
    /// (between this layer and the next, or between this layer and the zone, if
    /// this is the last layer).
    pub following_marker: Option<String>,
}

/// A wall or window archetype.
#[derive(Clone, Debug, PartialEq)]
pub enum BoundaryType {
    Layered {
        name: String,
        /// List of layers, non empty
        layers: Vec<BoundaryLayer>,
        /// A name that can be used to address the interface between the zone and
        /// the first layer.
        initial_marker: Option<String>,
    },
    Simple { name: String, u: HeatTransfer, g: Ratio },
}

/// A boundary type with its layers as a sequence.
pub enum BoundaryTypeView {
    Layered { name: String, layers: Seq<BoundaryLayer>, initial_marker: Option<String> },
    Simple { name: String, u: HeatTransfer, g: Ratio },
}

impl View for BoundaryType {
    type V = BoundaryTypeView;

    open spec fn view(&self) -> BoundaryTypeView {
        match self {
            BoundaryType::Layered { name, layers, initial_marker } => BoundaryTypeView::Layered {
                name: *name,
                layers: layers@,
                initial_marker: *initial_marker,
            },
            BoundaryType::Simple { name, u, g } => BoundaryTypeView::Simple { name: *name, u: *u, g: *g },
        }
    }
}

/// A physical partition between two zones.
#[derive(Debug, PartialEq)]
pub struct Boundary {
    /// Index of the boundary's type in `Model::boundary_types`.
    pub boundary_type: usize,
    /// Indices of the two zones in `Model::zones`.
    pub zones: (usize, usize),
    pub area: Area,
}

/// A validated model: every index refers to an entry of the matching arena.
#[derive(Debug)]
pub struct Model {
    pub materials: Vec<Material>,
    pub boundary_types: Vec<BoundaryType>,
    pub zones: Vec<Zone>,
    pub boundaries: Vec<Boundary>,
    /// Index of the material that fills the zones.
    pub air: usize,
}

pub open spec fn zone_capacity_spec(volume: u64, density: u64, specific_heat: u64) -> int {
    mul_spec(mul_spec(volume as int, density as int), specific_heat as int)
}

pub open spec fn layer_capacity_spec(area: u64, thickness: u64, density: u64, specific_heat: u64) -> int {
    mul_spec(
        mul_spec(mul_spec(area as int, thickness as int), density as int),
        specific_heat as int,
    )
}

pub open spec fn layer_conductance_spec(conductivity: u64, area: u64, thickness: u64) -> ThermalConductance {
    if thickness == 0 {
        ThermalConductance::Infinite
    } else {
        ThermalConductance::Finite((conductivity as int * area as int / thickness as int) as u128)
    }
}

impl Material {
    pub open spec fn wf(&self) -> bool {
        &&& bounded(self.thermal_conductivity.micro)
        &&& bounded(self.specific_heat_capacity.micro)
        &&& bounded(self.density.micro)
    }

    /// The air that fills zones when the model defines none: conductivity
    /// 0.026 W/(m·K), specific heat 1012 J/(kg·K), density 1.199 kg/m³.
    pub fn default_air() -> (r: Material)
        ensures
            r.name@ == "air"@,
            r.thermal_conductivity.micro == 26_000,
            r.specific_heat_capacity.micro == 1_012_000_000,
            r.density.micro == 1_199_000,
            r.wf(),
    {
        Material {
            name: String::from_str("air"),
            thermal_conductivity: ThermalConductivity { micro: 26_000 },
            specific_heat_capacity: SpecificHeatCapacity { micro: 1_012_000_000 },
            density: MassDensity { micro: 1_199_000 },
        }
    }
}

impl Zone {
    pub open spec fn wf(&self) -> bool {
        self.volume matches Some(v) ==> bounded(v.micro)
    }

    pub open spec fn heat_capacity_spec(&self, content: Material) -> HeatCapacity {
        match self.volume {
            Some(v) => HeatCapacity::Finite(
                zone_capacity_spec(
                    v.micro,
                    content.density.micro,
                    content.specific_heat_capacity.micro,
                ) as u128,
            ),
            None => HeatCapacity::Infinite,
        }
    }

    /// Heat capacity of the zone filled with `content`: volume × density ×
    /// specific heat, or infinite for an outer zone.
    pub fn heat_capacity(&self, content: &Material) -> (r: HeatCapacity)
        requires
            self.wf(),
            content.wf(),
        ensures
            r == self.heat_capacity_spec(*content),
            r matches HeatCapacity::Finite(c) ==> c <= 1_000_000_000_000_000_000_000_000,
    {
        match self.volume {
            Some(v) => {
                proof {
                    lemma_mul_spec_bound(
                        v.micro as int,
                        content.density.micro as int,
                        MAX_MAGNITUDE as int,
                        MAX_MAGNITUDE as int,
                    );
                    let m = mul_spec(v.micro as int, content.density.micro as int);
                    lemma_mul_bound(
                        m,
                        content.specific_heat_capacity.micro as int,
                        1_000_000_000_000_000_000,
                        MAX_MAGNITUDE as int,
                    );
                    lemma_mul_spec_bound(
                        m,
                        content.specific_heat_capacity.micro as int,
                        1_000_000_000_000_000_000,
                        MAX_MAGNITUDE as int,
                    );
                }
                let m = mul_fixed(v.micro as u128, content.density.micro as u128);
                HeatCapacity::Finite(mul_fixed(m, content.specific_heat_capacity.micro as u128))
            },
            None => HeatCapacity::Infinite,
        }
    }
}

impl BoundaryLayer {
    pub open spec fn wf(&self, n_materials: nat) -> bool {
        &&& self.material < n_materials
        &&& bounded(self.thickness.micro)
    }

    /// Heat capacity of the layer over `area`: area × thickness × density ×
    /// specific heat of `material`, the layer's material.
    pub fn heat_capacity(&self, material: &Material, area: Area) -> (r: HeatCapacity)
        requires
            bounded(self.thickness.micro),
            bounded(area.micro),
            material.wf(),
        ensures
            r == HeatCapacity::Finite(
                layer_capacity_spec(
                    area.micro,
                    self.thickness.micro,
                    material.density.micro,
                    material.specific_heat_capacity.micro,
                ) as u128,
            ),
            r matches HeatCapacity::Finite(c) ==> c <= MAX_LAYER_CAPACITY,
    {
        let c = layer_capacity(area, self.thickness, material.density, material.specific_heat_capacity);
        HeatCapacity::Finite(c)
    }

    /// Conductance of the layer over `area`: conductivity × area / thickness,
    /// infinite for a layer of zero thickness.
    pub fn conductance(&self, material: &Material, area: Area) -> (r: ThermalConductance)
        requires
            bounded(self.thickness.micro),
            bounded(area.micro),
            material.wf(),
        ensures
            r == layer_conductance_spec(
                material.thermal_conductivity.micro,
                area.micro,
                self.thickness.micro,
            ),
    {
        if self.thickness.micro == 0 {
            ThermalConductance::Infinite
        } else {
            proof {
                lemma_mul_bound(
                    material.thermal_conductivity.micro as int,
                    area.micro as int,
                    MAX_MAGNITUDE as int,
                    MAX_MAGNITUDE as int,
                );
            }
            let p = material.thermal_conductivity.micro as u128 * area.micro as u128;
            ThermalConductance::Finite(p / self.thickness.micro as u128)
        }
    }
}

/// Bound on the heat capacity of a single layer, in µJ/K.
pub const MAX_LAYER_CAPACITY: u128 = 1_000_000_000_000_000_000_000_000_000_000;

/// Heat capacity of a layer, in µJ/K.
pub fn layer_capacity(
    area: Area,
    thickness: Length,
    density: MassDensity,
    specific_heat: SpecificHeatCapacity,
) -> (r: u128)
    requires
        bounded(area.micro),
        bounded(thickness.micro),
        bounded(density.micro),
        bounded(specific_heat.micro),
    ensures
        r == layer_capacity_spec(area.micro, thickness.micro, density.micro, specific_heat.micro),
        r <= MAX_LAYER_CAPACITY,
{
    proof {
        let b = MAX_MAGNITUDE as int;
        lemma_mul_spec_bound(area.micro as int, thickness.micro as int, b, b);
        let v = mul_spec(area.micro as int, thickness.micro as int);
        lemma_mul_bound(v, density.micro as int, 1_000_000_000_000_000_000, b);
        lemma_mul_spec_bound(v, density.micro as int, 1_000_000_000_000_000_000, b);
        let m = mul_spec(v, density.micro as int);
        lemma_mul_bound(m, specific_heat.micro as int, 1_000_000_000_000_000_000_000_000, b);
        lemma_mul_spec_bound(m, specific_heat.micro as int, 1_000_000_000_000_000_000_000_000, b);
    }
    let v = mul_fixed(area.micro as u128, thickness.micro as u128);
    let m = mul_fixed(v, density.micro as u128);
    mul_fixed(m, specific_heat.micro as u128)
}

impl BoundaryType {
    pub open spec fn wf(&self, n_materials: nat) -> bool {
        match self {
            BoundaryType::Layered { layers, .. } => {
                &&& layers@.len() > 0
                &&& forall|i: int| 0 <= i < layers@.len() ==> (#[trigger] layers@[i]).wf(n_materials)
            },
            BoundaryType::Simple { u, g, .. } => bounded(u.micro) && bounded(g.micro),
        }
    }
}

impl Boundary {
    pub open spec fn wf(&self, n_types: nat, n_zones: nat) -> bool {
        &&& self.boundary_type < n_types
        &&& self.zones.0 < n_zones
        &&& self.zones.1 < n_zones
        &&& bounded(self.area.micro)
    }
}

impl Model {
    /// Every index refers to an existing entry and every quantity is in range.
    pub open spec fn wf(&self) -> bool {
        &&& self.air < self.materials@.len()
        &&& forall|i: int| 0 <= i < self.materials@.len() ==> (#[trigger] self.materials@[i]).wf()
        &&& forall|i: int|
            0 <= i < self.boundary_types@.len() ==> (#[trigger] self.boundary_types@[i]).wf(
                self.materials@.len(),
            )
        &&& forall|i: int| 0 <= i < self.zones@.len() ==> (#[trigger] self.zones@[i]).wf()
        &&& forall|i: int|
            0 <= i < self.boundaries@.len() ==> (#[trigger] self.boundaries@[i]).wf(
                self.boundary_types@.len(),
                self.zones@.len(),
            )
    }
}

} // verus!
