//! Errors of loading a model.

use vstd::prelude::*;

verus! {

/// Why a model document was rejected. Each variant names the offending entries.
#[derive(Debug, PartialEq)]
pub enum ModelError {
    /// The document defines a zone under a reserved name.
    ReservedZone { zone: String },
    /// A layered boundary type has no layers at all.
    EmptyLayers { boundary_type: String },
    /// A layered boundary type has two markers in succession.
    ConsecutiveMarkers { boundary_type: String },
    /// A layered boundary type has markers only.
    NoMaterialLayer { boundary_type: String },
    /// A layer of a boundary type names a material that does not exist.
    MissingMaterial { boundary_type: String, material: String },
    /// A boundary between `zones` names a zone that does not exist.
    MissingZone { zones: (String, String), zone: String },
    /// A boundary between `zones` names a boundary type that does not exist.
    MissingBoundaryType { zones: (String, String), boundary_type: String },
    /// The sub-boundaries of the boundary between `zones` exceed its area.
    SubBoundaryArea { zones: (String, String) },
}

/// A model error with its names as character sequences.
pub enum ModelErrorView {
    ReservedZone { zone: Seq<char> },
    EmptyLayers { boundary_type: Seq<char> },
    ConsecutiveMarkers { boundary_type: Seq<char> },
    NoMaterialLayer { boundary_type: Seq<char> },
    MissingMaterial { boundary_type: Seq<char>, material: Seq<char> },
    MissingZone { zones: (Seq<char>, Seq<char>), zone: Seq<char> },
    MissingBoundaryType { zones: (Seq<char>, Seq<char>), boundary_type: Seq<char> },
    SubBoundaryArea { zones: (Seq<char>, Seq<char>) },
}

impl View for ModelError {
    type V = ModelErrorView;

    open spec fn view(&self) -> ModelErrorView {
        match self {
            ModelError::ReservedZone { zone } => ModelErrorView::ReservedZone { zone: zone@ },
            ModelError::EmptyLayers { boundary_type } => ModelErrorView::EmptyLayers {
                boundary_type: boundary_type@,
            },
            ModelError::ConsecutiveMarkers { boundary_type } => ModelErrorView::ConsecutiveMarkers {
                boundary_type: boundary_type@,
            },
            ModelError::NoMaterialLayer { boundary_type } => ModelErrorView::NoMaterialLayer {
                boundary_type: boundary_type@,
            },
            ModelError::MissingMaterial { boundary_type, material } => ModelErrorView::MissingMaterial {
                boundary_type: boundary_type@,
                material: material@,
            },
            ModelError::MissingZone { zones, zone } => ModelErrorView::MissingZone {
                zones: (zones.0@, zones.1@),
                zone: zone@,
            },
            ModelError::MissingBoundaryType { zones, boundary_type } => ModelErrorView::MissingBoundaryType {
                zones: (zones.0@, zones.1@),
                boundary_type: boundary_type@,
            },
            ModelError::SubBoundaryArea { zones } => ModelErrorView::SubBoundaryArea {
                zones: (zones.0@, zones.1@),
            },
        }
    }
}

/// `s` between double quotes.
pub open spec fn quoted(s: Seq<char>) -> Seq<char> {
    "\""@ + s + "\""@
}

/// A zone pair as `["a", "b"]`.
pub open spec fn pair_text(zones: (Seq<char>, Seq<char>)) -> Seq<char> {
    "["@ + quoted(zones.0) + ", "@ + quoted(zones.1) + "]"@
}

/// The text describing an error.
pub open spec fn message_spec(e: ModelErrorView) -> Seq<char> {
    match e {
        ModelErrorView::ReservedZone { zone } => "'"@ + zone
            + "' is a reserved zone name and must not be defined in model"@,
        ModelErrorView::EmptyLayers { boundary_type } => "Boundary type "@ + quoted(boundary_type)
            + " has no layers"@,
        ModelErrorView::ConsecutiveMarkers { boundary_type } => "Boundary type "@ + quoted(
            boundary_type,
        ) + " has two consecutive markers"@,
        ModelErrorView::NoMaterialLayer { boundary_type } => "Boundary type "@ + quoted(
            boundary_type,
        ) + " does not have at least one non-marker layer"@,
        ModelErrorView::MissingMaterial { boundary_type, material } => "Boundary type "@ + quoted(
            boundary_type,
        ) + ": could not find material "@ + quoted(material),
        ModelErrorView::MissingZone { zones, zone } => "Boundary "@ + pair_text(zones)
            + ": could not find zone "@ + quoted(zone),
        ModelErrorView::MissingBoundaryType { zones, boundary_type } => "Boundary "@ + pair_text(
            zones,
        ) + ": could not find boundary type "@ + quoted(boundary_type),
        ModelErrorView::SubBoundaryArea { zones } => "Boundary "@ + pair_text(zones)
            + " has less area than the sum of its sub-boundaries"@,
    }
}

fn append_quoted(out: &mut String, s: &str)
    ensures
        final(out)@ == old(out)@ + quoted(s@),
{
    out.append("\"");
    out.append(s);
    out.append("\"");
    assert(final(out)@ =~= old(out)@ + quoted(s@));
}

fn append_pair(out: &mut String, zones: &(String, String))
    ensures
        final(out)@ == old(out)@ + pair_text((zones.0@, zones.1@)),
{
    let ghost start = out@;
    out.append("[");
    append_quoted(out, zones.0.as_str());
    out.append(", ");
    append_quoted(out, zones.1.as_str());
    out.append("]");
    assert(out@ =~= start + pair_text((zones.0@, zones.1@)));
}

impl ModelError {
    /// Describes the error, naming the offending entries.
    pub fn message(&self) -> (r: String)
        ensures
            r@ == message_spec(self@),
    {
        let mut out = String::new();
        match self {
            ModelError::ReservedZone { zone } => {
                out.append("'");
                out.append(zone.as_str());
                out.append("' is a reserved zone name and must not be defined in model");
            },
            ModelError::EmptyLayers { boundary_type } => {
                out.append("Boundary type ");
                append_quoted(&mut out, boundary_type.as_str());
                out.append(" has no layers");
            },
            ModelError::ConsecutiveMarkers { boundary_type } => {
                out.append("Boundary type ");
                append_quoted(&mut out, boundary_type.as_str());
                out.append(" has two consecutive markers");
            },
            ModelError::NoMaterialLayer { boundary_type } => {
                out.append("Boundary type ");
                append_quoted(&mut out, boundary_type.as_str());
                out.append(" does not have at least one non-marker layer");
            },
            ModelError::MissingMaterial { boundary_type, material } => {
                out.append("Boundary type ");
                append_quoted(&mut out, boundary_type.as_str());
                out.append(": could not find material ");
                append_quoted(&mut out, material.as_str());
            },
            ModelError::MissingZone { zones, zone } => {
                out.append("Boundary ");
                append_pair(&mut out, zones);
                out.append(": could not find zone ");
                append_quoted(&mut out, zone.as_str());
            },
            ModelError::MissingBoundaryType { zones, boundary_type } => {
                out.append("Boundary ");
                append_pair(&mut out, zones);
                out.append(": could not find boundary type ");
                append_quoted(&mut out, boundary_type.as_str());
            },
            ModelError::SubBoundaryArea { zones } => {
                out.append("Boundary ");
                append_pair(&mut out, zones);
                out.append(" has less area than the sum of its sub-boundaries");
            },
        }
        assert(out@ =~= message_spec(self@));
        out
    }
}

} // verus!
