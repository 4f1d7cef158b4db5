//! The model document as it is read, before any name is resolved.
//!
//! Catalogs keep the order of the document; a name that occurs twice resolves to
//! its first entry.

use crate::error::ModelError;
use crate::lookup::{find_material, first_index, lemma_first_index, material_names};
use crate::model;
use crate::units::{
    bounded, Area, HeatTransfer, Length, MassDensity, Ratio, SpecificHeatCapacity,
    ThermalConductivity, Volume,
};
use vstd::prelude::*;

verus! {

/// The four catalogs of a model document.
#[derive(Debug)]
pub struct Model {
    pub zones: Vec<(String, Zone)>,
    pub boundaries: Vec<Boundary>,
    pub materials: Vec<(String, Material)>,
    pub boundary_types: Vec<(String, BoundaryType)>,
}

/// A zone entry: its volume (`None` for an outer zone) and the thin spaces
/// attached to it.
#[derive(Debug, PartialEq)]
pub struct Zone {
    pub volume: Option<Volume>,
    pub adjacent_zones: Vec<AdjacentZone>,
}

/// Shorthand for a zone of zero volume named `<parent>/<suffix>`, separated from
/// its parent by a boundary of the given type and area.
#[derive(Debug, PartialEq)]
pub struct AdjacentZone {
    pub suffix: String,
    pub boundary_type: String,
    pub area: Area,
}

#[derive(Debug, PartialEq)]
pub struct Boundary {
    pub boundary_type: String,
    pub zones: (String, String),
    pub area: Area,
    pub sub_boundaries: Vec<SubBoundary>,
}

/// A part of a boundary's area that has a type of its own.
#[derive(Debug, PartialEq)]
pub struct SubBoundary {
    pub boundary_type: String,
    pub area: Area,
}

#[derive(Debug, PartialEq)]
pub enum BoundaryType {
    Layered { layers: Vec<BoundaryLayer> },
    /// Simple boundaries don't have any mass!
    Simple { u: HeatTransfer, g: Ratio },
}

/// An entry of a layer list: a material layer, or a marker naming the interface
/// at that place.
#[derive(Debug, PartialEq)]
pub enum BoundaryLayer {
    Layer { material: String, thickness: Length },
    Marker { marker: String },
}

#[derive(Clone, Copy, Debug, PartialEq)]
pub struct Material {
    pub thermal_conductivity: ThermalConductivity,
    pub specific_heat_capacity: SpecificHeatCapacity,
    pub density: MassDensity,
}

impl Material {
    pub open spec fn wf(&self) -> bool {
        &&& bounded(self.thermal_conductivity.micro)
        &&& bounded(self.specific_heat_capacity.micro)
        &&& bounded(self.density.micro)
    }

    pub open spec fn convert_spec(self, name: String) -> model::Material {
        model::Material {
            name,
            thermal_conductivity: self.thermal_conductivity,
            specific_heat_capacity: self.specific_heat_capacity,
            density: self.density,
        }
    }

    pub fn convert(self, name: String) -> (r: model::Material)
        ensures
            r == self.convert_spec(name),
    {
        model::Material {
            name,
            thermal_conductivity: self.thermal_conductivity,
            specific_heat_capacity: self.specific_heat_capacity,
            density: self.density,
        }
    }
}

impl BoundaryLayer {
    pub open spec fn wf(&self) -> bool {
        self matches BoundaryLayer::Layer { thickness, .. } ==> bounded(thickness.micro)
    }

    pub fn is_marker(&self) -> (r: bool)
        ensures
            r == (*self is Marker),
    {
        match self {
            Self::Layer { .. } => false,
            Self::Marker { .. } => true,
        }
    }

    /// Resolves the material of a material layer; `boundary_type` names the
    /// boundary type the layer belongs to, for the error.
    pub fn convert(&self, boundary_type: &String, materials: &Vec<model::Material>) -> (r: Result<
        model::BoundaryLayer,
        ModelError,
    >)
        requires
            *self is Layer,
        ensures
            match (*self, r) {
                (BoundaryLayer::Layer { material, thickness }, Ok(l)) => {
                    &&& first_index(material_names(materials@), material@) == Some(
                        l.material as int,
                    )
                    &&& l.thickness == thickness
                    &&& l.following_marker is None
                },
                (BoundaryLayer::Layer { material, .. }, Err(e)) => {
                    &&& first_index(material_names(materials@), material@) is None
                    &&& e == ModelError::MissingMaterial { boundary_type: *boundary_type, material }
                },
                _ => false,
            },
    {
        match self {
            BoundaryLayer::Layer { material, thickness } => {
                proof {
                    let names = material_names(materials@);
                    lemma_first_index(names, material@);
                    assert(names.len() == materials@.len());
                }
                match find_material(materials, material) {
                    Some(i) => Ok(
                        model::BoundaryLayer {
                            material: i,
                            thickness: *thickness,
                            following_marker: None,
                        },
                    ),
                    None => Err(
                        ModelError::MissingMaterial {
                            boundary_type: boundary_type.clone(),
                            material: material.clone(),
                        },
                    ),
                }
            },
            // Excluded by `requires`: a marker has no material to resolve.
            BoundaryLayer::Marker { .. } => Err(
                ModelError::EmptyLayers { boundary_type: boundary_type.clone() },
            ),
        }
    }
}

/// Entries `i` and `i + 1` are both markers.
pub open spec fn markers_at(layers: Seq<BoundaryLayer>, i: int) -> bool {
    layers[i] is Marker && layers[i + 1] is Marker
}

/// Two markers follow each other somewhere in the list.
pub open spec fn consecutive_markers(layers: Seq<BoundaryLayer>) -> bool {
    exists|i: int| 0 <= i < layers.len() - 1 && #[trigger] markers_at(layers, i)
}

/// The list holds a material layer.
pub open spec fn has_material_layer(layers: Seq<BoundaryLayer>) -> bool {
    exists|i: int| 0 <= i < layers.len() && #[trigger] layers[i] is Layer
}

/// The first material named by the list that `names` does not hold.
pub open spec fn first_missing_material(layers: Seq<BoundaryLayer>, names: Seq<Seq<char>>) -> Option<String>
    decreases layers.len(),
{
    if layers.len() == 0 {
        None
    } else if let Some(m) = first_missing_material(layers.drop_last(), names) {
        Some(m)
    } else {
        match layers.last() {
            BoundaryLayer::Layer { material, .. } => if first_index(names, material@) is None {
                Some(material)
            } else {
                None
            },
            BoundaryLayer::Marker { .. } => None,
        }
    }
}

/// The material layers of the list in order, each marker attached to the layer
/// before it (a marker at the front is the initial marker, kept apart).
pub open spec fn build_layers(layers: Seq<BoundaryLayer>, names: Seq<Seq<char>>) -> Seq<model::BoundaryLayer>
    decreases layers.len(),
{
    if layers.len() == 0 {
        Seq::empty()
    } else {
        let prev = build_layers(layers.drop_last(), names);
        match layers.last() {
            BoundaryLayer::Layer { material, thickness } => prev.push(
                model::BoundaryLayer {
                    material: first_index(names, material@).unwrap() as usize,
                    thickness,
                    following_marker: None,
                },
            ),
            BoundaryLayer::Marker { marker } => if prev.len() == 0 {
                prev
            } else {
                prev.update(
                    prev.len() - 1,
                    model::BoundaryLayer {
                        material: prev.last().material,
                        thickness: prev.last().thickness,
                        following_marker: Some(marker),
                    },
                )
            },
        }
    }
}

/// The marker at the front of the list, if any.
pub open spec fn initial_marker(layers: Seq<BoundaryLayer>) -> Option<String> {
    if layers.len() > 0 {
        match layers[0] {
            BoundaryLayer::Marker { marker } => Some(marker),
            BoundaryLayer::Layer { .. } => None,
        }
    } else {
        None
    }
}

proof fn lemma_first_missing_prefix(layers: Seq<BoundaryLayer>, names: Seq<Seq<char>>, k: int)
    requires
        0 <= k <= layers.len(),
        first_missing_material(layers.take(k), names) is Some,
    ensures
        first_missing_material(layers, names) == first_missing_material(layers.take(k), names),
    decreases layers.len() - k,
{
    if k < layers.len() {
        assert(layers.take(k + 1).drop_last() =~= layers.take(k));
        lemma_first_missing_prefix(layers, names, k + 1);
    } else {
        assert(layers.take(k) =~= layers);
    }
}

impl BoundaryType {
    pub open spec fn wf(&self) -> bool {
        match self {
            BoundaryType::Layered { layers } => forall|i: int|
                0 <= i < layers@.len() ==> (#[trigger] layers@[i]).wf(),
            BoundaryType::Simple { u, g } => bounded(u.micro) && bounded(g.micro),
        }
    }

    /// What converting the entry called `name` gives: the first structural
    /// error of its layer list (no layers, two markers in succession, markers
    /// only), then the first missing material, or the resolved boundary type.
    pub open spec fn convert_spec(self, name: String, names: Seq<Seq<char>>) -> Result<
        model::BoundaryTypeView,
        ModelError,
    > {
        match self {
            BoundaryType::Simple { u, g } => Ok(model::BoundaryTypeView::Simple { name, u, g }),
            BoundaryType::Layered { layers } => {
                let l = layers@;
                if l.len() == 0 {
                    Err(ModelError::EmptyLayers { boundary_type: name })
                } else if consecutive_markers(l) {
                    Err(ModelError::ConsecutiveMarkers { boundary_type: name })
                } else if !has_material_layer(l) {
                    Err(ModelError::NoMaterialLayer { boundary_type: name })
                } else if let Some(material) = first_missing_material(l, names) {
                    Err(ModelError::MissingMaterial { boundary_type: name, material })
                } else {
                    Ok(
                        model::BoundaryTypeView::Layered {
                            name,
                            layers: build_layers(l, names),
                            initial_marker: initial_marker(l),
                        },
                    )
                }
            },
        }
    }

    /// Resolves the entry called `name` against `materials`.
    #[verifier::loop_isolation(false)]
    pub fn convert(&self, name: String, materials: &Vec<model::Material>) -> (r: Result<
        model::BoundaryType,
        ModelError,
    >)
        requires
            self.wf(),
        ensures
            match r {
                Ok(t) => self.convert_spec(name, material_names(materials@)) == Ok::<_, ModelError>(
                    t@,
                ) && t.wf(materials@.len()),
                Err(e) => self.convert_spec(name, material_names(materials@)) == Err::<
                    model::BoundaryTypeView,
                    _,
                >(e),
            },
    {
        match self {
            BoundaryType::Simple { u, g } => Ok(model::BoundaryType::Simple { name, u: *u, g: *g }),
            BoundaryType::Layered { layers } => {
                let n = layers.len();
                if n == 0 {
                    return Err(ModelError::EmptyLayers { boundary_type: name });
                }
                // Verify that the input looks OK:

                let mut prev_is_marker = false;
                let mut have_non_marker = false;
                let ghost mut witness: int = 0;
                let mut i: usize = 0;
                while i < n
                    invariant
                        n == layers@.len(),
                        i <= n,
                        prev_is_marker == (i > 0 && layers@[i - 1] is Marker),
                        have_non_marker ==> 0 <= witness < i && layers@[witness] is Layer,
                        !have_non_marker ==> forall|j: int| 0 <= j < i ==> #[trigger] layers@[j] is Marker,
                        forall|j: int| 0 <= j < i - 1 ==> !#[trigger] markers_at(layers@, j),
                    decreases n - i,
                {
                    let is_marker = layers[i].is_marker();
                    if is_marker && prev_is_marker {
                        assert(markers_at(layers@, i - 1));
                        assert(consecutive_markers(layers@));
                        return Err(ModelError::ConsecutiveMarkers { boundary_type: name });
                    }
                    proof {
                        if !is_marker && !have_non_marker {
                            witness = i as int;
                        }
                    }
                    have_non_marker = have_non_marker || !is_marker;
                    prev_is_marker = is_marker;
                    i += 1;
                }
                assert(!consecutive_markers(layers@));
                if !have_non_marker {
                    assert(!has_material_layer(layers@));
                    return Err(ModelError::NoMaterialLayer { boundary_type: name });
                }
                assert(has_material_layer(layers@));
                let initial_marker = match &layers[0] {
                    BoundaryLayer::Marker { marker } => Some(marker.clone()),
                    BoundaryLayer::Layer { .. } => None,
                };

                // Convert the individual layers and assign markers
                let ghost names = material_names(materials@);
                let mut out: Vec<model::BoundaryLayer> = Vec::new();
                let mut i: usize = 0;
                while i < n
                    invariant
                        n == layers@.len(),
                        i <= n,
                        names == material_names(materials@),
                        forall|j: int| 0 <= j < n ==> (#[trigger] layers@[j]).wf(),
                        first_missing_material(layers@.take(i as int), names) is None,
                        out@ == build_layers(layers@.take(i as int), names),
                        forall|k: int| 0 <= k < out@.len() ==> (#[trigger] out@[k]).wf(materials@.len()),
                        forall|j: int| 0 <= j < i && #[trigger] layers@[j] is Layer ==> out@.len() > 0,
                        !consecutive_markers(layers@),
                        has_material_layer(layers@),
                    decreases n - i,
                {
                    proof {
                        assert(layers@.take(i + 1).drop_last() =~= layers@.take(i as int));
                    }
                    let layer = &layers[i];
                    if layer.is_marker() {
                        if out.len() > 0 {
                            let last = out.len() - 1;
                            let marker = match layer {
                                BoundaryLayer::Marker { marker } => marker.clone(),
                                BoundaryLayer::Layer { material, .. } => material.clone(),
                            };
                            let l = model::BoundaryLayer {
                                material: out[last].material,
                                thickness: out[last].thickness,
                                following_marker: Some(marker),
                            };
                            out.set(last, l);
                        }
                    } else {
                        match layer.convert(&name, materials) {
                            Ok(l) => {
                                proof {
                                    if let BoundaryLayer::Layer { material, .. } = layer {
                                        lemma_first_index(names, material@);
                                    }
                                }
                                out.push(l);
                            },
                            Err(e) => {
                                proof {
                                    lemma_first_missing_prefix(layers@, names, i + 1);
                                }
                                return Err(e);
                            },
                        }
                    }
                    i += 1;
                }
                proof {
                    assert(layers@.take(n as int) =~= layers@);
                }
                Ok(model::BoundaryType::Layered { name, layers: out, initial_marker })
            },
        }
    }
}

impl Zone {
    pub open spec fn wf(&self) -> bool {
        &&& (self.volume matches Some(v) ==> bounded(v.micro))
        &&& forall|i: int|
            0 <= i < self.adjacent_zones@.len() ==> bounded(
                (#[trigger] self.adjacent_zones@[i]).area.micro,
            )
    }
}

impl Boundary {
    pub open spec fn wf(&self) -> bool {
        &&& bounded(self.area.micro)
        &&& forall|i: int|
            0 <= i < self.sub_boundaries@.len() ==> bounded(
                (#[trigger] self.sub_boundaries@[i]).area.micro,
            )
    }
}

impl Model {
    /// Every quantity of the document is in range.
    pub open spec fn wf(&self) -> bool {
        &&& forall|i: int| 0 <= i < self.zones@.len() ==> (#[trigger] self.zones@[i]).1.wf()
        &&& forall|i: int| 0 <= i < self.boundaries@.len() ==> (#[trigger] self.boundaries@[i]).wf()
        &&& forall|i: int| 0 <= i < self.materials@.len() ==> (#[trigger] self.materials@[i]).1.wf()
        &&& forall|i: int|
            0 <= i < self.boundary_types@.len() ==> (#[trigger] self.boundary_types@[i]).1.wf()
    }
}

} // verus!
