//! Validating a model document and resolving its names.

use crate::as_loaded;
use crate::error::{ModelError, ModelErrorView};
use crate::lookup::{
    entry_names, find_material, find_zone, first_index, get, lemma_first_index, material_names,
    zone_names,
};
use crate::model::{
    Boundary, BoundaryType, BoundaryTypeView, Material, Model, Zone, ZoneView,
};
use crate::units::{Area, Volume};
use vstd::prelude::*;

verus! {

/// Name of the zone synthesized for the adjacent zone `suffix` of `parent`.
pub open spec fn adjacent_name(parent: Seq<char>, suffix: Seq<char>) -> Seq<char> {
    parent + "/"@ + suffix
}

/// The zone synthesized for an adjacent zone of `parent`: zero volume.
pub open spec fn adjacent_zone(parent: Seq<char>, a: as_loaded::AdjacentZone) -> ZoneView {
    ZoneView { name: adjacent_name(parent, a.suffix@), volume: Some(Volume { micro: 0 }) }
}

/// The zones that one zone entry defines: itself, then its adjacent zones.
pub open spec fn entry_zones(entry: (String, as_loaded::Zone)) -> Seq<ZoneView> {
    seq![ZoneView { name: entry.0@, volume: entry.1.volume }] + entry.1.adjacent_zones@.map_values(
        |a: as_loaded::AdjacentZone| adjacent_zone(entry.0@, a),
    )
}

/// The zones that the zone entries define, in order.
pub open spec fn defined_zones(entries: Seq<(String, as_loaded::Zone)>) -> Seq<ZoneView>
    decreases entries.len(),
{
    if entries.len() == 0 {
        Seq::empty()
    } else {
        defined_zones(entries.drop_last()) + entry_zones(entries.last())
    }
}

/// The zones of the loaded model: those the document defines, then the two
/// reserved outer zones.
pub open spec fn model_zones(doc: as_loaded::Model) -> Seq<ZoneView> {
    defined_zones(doc.zones@) + seq![
        ZoneView { name: "outside"@, volume: None },
        ZoneView { name: "ground"@, volume: None },
    ]
}

/// The names of `zones`, in order.
pub open spec fn zone_view_names(zones: Seq<ZoneView>) -> Seq<Seq<char>> {
    zones.map_values(|z: ZoneView| z.name)
}

/// The material names of the loaded model: those of the document, then "air"
/// if the document defines no air.
pub open spec fn model_material_names(doc: as_loaded::Model) -> Seq<Seq<char>> {
    let names = entry_names(doc.materials@);
    if first_index(names, "air"@) is Some {
        names
    } else {
        names.push("air"@)
    }
}

/// The materials of the loaded model: those of the document in order, and the
/// default air after them if the document defines no air; `air` is the index of
/// the first material called "air".
pub open spec fn materials_match(doc: as_loaded::Model, materials: Seq<Material>, air: int) -> bool {
    let converted = doc.materials@.map_values(
        |e: (String, as_loaded::Material)| e.1.convert_spec(e.0),
    );
    &&& materials.take(converted.len() as int) == converted
    &&& material_names(materials) == model_material_names(doc)
    &&& first_index(material_names(materials), "air"@) == Some(air)
    &&& (materials.len() > converted.len() ==> {
        let a = materials[converted.len() as int];
        &&& a.thermal_conductivity.micro == 26_000
        &&& a.specific_heat_capacity.micro == 1_012_000_000
        &&& a.density.micro == 1_199_000
    })
}

/// The error of the first reserved zone name that the document defines.
pub open spec fn reserved_error(doc: as_loaded::Model) -> Option<ModelErrorView> {
    let names = entry_names(doc.zones@);
    if first_index(names, "outside"@) is Some {
        Some(ModelErrorView::ReservedZone { zone: "outside"@ })
    } else if first_index(names, "ground"@) is Some {
        Some(ModelErrorView::ReservedZone { zone: "ground"@ })
    } else {
        None
    }
}

/// The boundary types converted in order, or the error of the first that fails.
pub open spec fn convert_types(
    entries: Seq<(String, as_loaded::BoundaryType)>,
    materials: Seq<Seq<char>>,
) -> Result<Seq<BoundaryTypeView>, ModelErrorView>
    decreases entries.len(),
{
    if entries.len() == 0 {
        Ok(Seq::empty())
    } else {
        match convert_types(entries.drop_last(), materials) {
            Err(e) => Err(e),
            Ok(prev) => match entries.last().1.convert_spec(entries.last().0, materials) {
                Err(e) => Err(e@),
                Ok(t) => Ok(prev.push(t)),
            },
        }
    }
}

/// The boundaries between a zone (at index `base`) and its adjacent zones (at
/// the indices that follow it).
pub open spec fn adjacent_boundaries(
    parent: Seq<char>,
    adjacent: Seq<as_loaded::AdjacentZone>,
    base: int,
    types: Seq<Seq<char>>,
) -> Result<Seq<Boundary>, ModelErrorView>
    decreases adjacent.len(),
{
    if adjacent.len() == 0 {
        Ok(Seq::empty())
    } else {
        match adjacent_boundaries(parent, adjacent.drop_last(), base, types) {
            Err(e) => Err(e),
            Ok(prev) => {
                let a = adjacent.last();
                match first_index(types, a.boundary_type@) {
                    None => Err(
                        ModelErrorView::MissingBoundaryType {
                            zones: (parent, adjacent_name(parent, a.suffix@)),
                            boundary_type: a.boundary_type@,
                        },
                    ),
                    Some(t) => Ok(
                        prev.push(
                            Boundary {
                                boundary_type: t as usize,
                                zones: (base as usize, (base + adjacent.len()) as usize),
                                area: a.area,
                            },
                        ),
                    ),
                }
            },
        }
    }
}

/// The boundaries of all adjacent zones, zone entry by zone entry.
pub open spec fn zone_boundaries(
    entries: Seq<(String, as_loaded::Zone)>,
    types: Seq<Seq<char>>,
) -> Result<Seq<Boundary>, ModelErrorView>
    decreases entries.len(),
{
    if entries.len() == 0 {
        Ok(Seq::empty())
    } else {
        match zone_boundaries(entries.drop_last(), types) {
            Err(e) => Err(e),
            Ok(prev) => match adjacent_boundaries(
                entries.last().0@,
                entries.last().1.adjacent_zones@,
                defined_zones(entries.drop_last()).len() as int,
                types,
            ) {
                Err(e) => Err(e),
                Ok(b) => Ok(prev + b),
            },
        }
    }
}

/// The sub-boundaries of a boundary between `zones` of area `area`, with the
/// area left over; an error where a sub-boundary exceeds what is left.
pub open spec fn sub_boundaries(
    subs: Seq<as_loaded::SubBoundary>,
    names: (Seq<char>, Seq<char>),
    zones: (usize, usize),
    area: int,
    types: Seq<Seq<char>>,
) -> Result<(Seq<Boundary>, int), ModelErrorView>
    decreases subs.len(),
{
    if subs.len() == 0 {
        Ok((Seq::empty(), area))
    } else {
        match sub_boundaries(subs.drop_last(), names, zones, area, types) {
            Err(e) => Err(e),
            Ok((prev, remaining)) => {
                let s = subs.last();
                if s.area.micro > remaining {
                    Err(ModelErrorView::SubBoundaryArea { zones: names })
                } else {
                    match first_index(types, s.boundary_type@) {
                        None => Err(
                            ModelErrorView::MissingBoundaryType {
                                zones: names,
                                boundary_type: s.boundary_type@,
                            },
                        ),
                        Some(t) => Ok(
                            (
                                prev.push(
                                    Boundary { boundary_type: t as usize, zones, area: s.area },
                                ),
                                remaining - s.area.micro,
                            ),
                        ),
                    }
                }
            },
        }
    }
}

/// One boundary of the document expanded: its sub-boundaries, then the rest of
/// its area under its own type.
pub open spec fn expand_boundary(
    b: as_loaded::Boundary,
    zones: Seq<Seq<char>>,
    types: Seq<Seq<char>>,
) -> Result<Seq<Boundary>, ModelErrorView> {
    let names = (b.zones.0@, b.zones.1@);
    match first_index(zones, b.zones.0@) {
        None => Err(ModelErrorView::MissingZone { zones: names, zone: b.zones.0@ }),
        Some(z0) => match first_index(zones, b.zones.1@) {
            None => Err(ModelErrorView::MissingZone { zones: names, zone: b.zones.1@ }),
            Some(z1) => match sub_boundaries(
                b.sub_boundaries@,
                names,
                (z0 as usize, z1 as usize),
                b.area.micro as int,
                types,
            ) {
                Err(e) => Err(e),
                Ok((subs, remaining)) => match first_index(types, b.boundary_type@) {
                    None => Err(
                        ModelErrorView::MissingBoundaryType {
                            zones: names,
                            boundary_type: b.boundary_type@,
                        },
                    ),
                    Some(t) => Ok(
                        subs.push(
                            Boundary {
                                boundary_type: t as usize,
                                zones: (z0 as usize, z1 as usize),
                                area: Area { micro: remaining as u64 },
                            },
                        ),
                    ),
                },
            },
        },
    }
}

/// All boundaries of the document expanded, in order.
pub open spec fn expand_boundaries(
    bs: Seq<as_loaded::Boundary>,
    zones: Seq<Seq<char>>,
    types: Seq<Seq<char>>,
) -> Result<Seq<Boundary>, ModelErrorView>
    decreases bs.len(),
{
    if bs.len() == 0 {
        Ok(Seq::empty())
    } else {
        match expand_boundaries(bs.drop_last(), zones, types) {
            Err(e) => Err(e),
            Ok(prev) => match expand_boundary(bs.last(), zones, types) {
                Err(e) => Err(e),
                Ok(b) => Ok(prev + b),
            },
        }
    }
}

/// What loading the document gives: its boundary types and its boundaries, or
/// the first error met when checking reserved names, then boundary types, then
/// adjacent zones, then boundaries, each in document order.
pub open spec fn load_spec(doc: as_loaded::Model) -> Result<
    (Seq<BoundaryTypeView>, Seq<Boundary>),
    ModelErrorView,
> {
    let types = entry_names(doc.boundary_types@);
    if let Some(e) = reserved_error(doc) {
        Err(e)
    } else {
        match convert_types(doc.boundary_types@, model_material_names(doc)) {
            Err(e) => Err(e),
            Ok(ts) => match zone_boundaries(doc.zones@, types) {
                Err(e) => Err(e),
                Ok(adjacent) => match expand_boundaries(
                    doc.boundaries@,
                    zone_view_names(model_zones(doc)),
                    types,
                ) {
                    Err(e) => Err(e),
                    Ok(bs) => Ok((ts, adjacent + bs)),
                },
            },
        }
    }
}

proof fn lemma_first_index_push(names: Seq<Seq<char>>, name: Seq<char>)
    requires
        first_index(names, name) is None,
    ensures
        first_index(names.push(name), name) == Some(names.len() as int),
{
    assert(names.push(name).drop_last() =~= names);
}

proof fn lemma_convert_types_prefix(
    entries: Seq<(String, as_loaded::BoundaryType)>,
    materials: Seq<Seq<char>>,
    k: int,
)
    requires
        0 <= k <= entries.len(),
        convert_types(entries.take(k), materials) is Err,
    ensures
        convert_types(entries, materials) == convert_types(entries.take(k), materials),
    decreases entries.len() - k,
{
    if k < entries.len() {
        assert(entries.take(k + 1).drop_last() =~= entries.take(k));
        lemma_convert_types_prefix(entries, materials, k + 1);
    } else {
        assert(entries.take(k) =~= entries);
    }
}

proof fn lemma_adjacent_prefix(
    parent: Seq<char>,
    adjacent: Seq<as_loaded::AdjacentZone>,
    base: int,
    types: Seq<Seq<char>>,
    k: int,
)
    requires
        0 <= k <= adjacent.len(),
        adjacent_boundaries(parent, adjacent.take(k), base, types) is Err,
    ensures
        adjacent_boundaries(parent, adjacent, base, types) == adjacent_boundaries(
            parent,
            adjacent.take(k),
            base,
            types,
        ),
    decreases adjacent.len() - k,
{
    if k < adjacent.len() {
        assert(adjacent.take(k + 1).drop_last() =~= adjacent.take(k));
        lemma_adjacent_prefix(parent, adjacent, base, types, k + 1);
    } else {
        assert(adjacent.take(k) =~= adjacent);
    }
}

proof fn lemma_zone_boundaries_prefix(
    entries: Seq<(String, as_loaded::Zone)>,
    types: Seq<Seq<char>>,
    k: int,
)
    requires
        0 <= k <= entries.len(),
        zone_boundaries(entries.take(k), types) is Err,
    ensures
        zone_boundaries(entries, types) == zone_boundaries(entries.take(k), types),
    decreases entries.len() - k,
{
    if k < entries.len() {
        assert(entries.take(k + 1).drop_last() =~= entries.take(k));
        lemma_zone_boundaries_prefix(entries, types, k + 1);
    } else {
        assert(entries.take(k) =~= entries);
    }
}

proof fn lemma_sub_prefix(
    subs: Seq<as_loaded::SubBoundary>,
    names: (Seq<char>, Seq<char>),
    zones: (usize, usize),
    area: int,
    types: Seq<Seq<char>>,
    k: int,
)
    requires
        0 <= k <= subs.len(),
        sub_boundaries(subs.take(k), names, zones, area, types) is Err,
    ensures
        sub_boundaries(subs, names, zones, area, types) == sub_boundaries(
            subs.take(k),
            names,
            zones,
            area,
            types,
        ),
    decreases subs.len() - k,
{
    if k < subs.len() {
        assert(subs.take(k + 1).drop_last() =~= subs.take(k));
        lemma_sub_prefix(subs, names, zones, area, types, k + 1);
    } else {
        assert(subs.take(k) =~= subs);
    }
}

proof fn lemma_expand_prefix(
    bs: Seq<as_loaded::Boundary>,
    zones: Seq<Seq<char>>,
    types: Seq<Seq<char>>,
    k: int,
)
    requires
        0 <= k <= bs.len(),
        expand_boundaries(bs.take(k), zones, types) is Err,
    ensures
        expand_boundaries(bs, zones, types) == expand_boundaries(bs.take(k), zones, types),
    decreases bs.len() - k,
{
    if k < bs.len() {
        assert(bs.take(k + 1).drop_last() =~= bs.take(k));
        lemma_expand_prefix(bs, zones, types, k + 1);
    } else {
        assert(bs.take(k) =~= bs);
    }
}

/// The document's materials converted, with the default air after them if the
/// document defines none, and the index of the air.
fn convert_materials(doc: &as_loaded::Model) -> (r: (Vec<Material>, usize))
    requires
        doc.wf(),
    ensures
        materials_match(*doc, r.0@, r.1 as int),
        r.1 < r.0@.len(),
        forall|k: int| 0 <= k < r.0@.len() ==> (#[trigger] r.0@[k]).wf(),
{
    let ghost converted = doc.materials@.map_values(
        |e: (String, as_loaded::Material)| e.1.convert_spec(e.0),
    );
    let mut materials: Vec<Material> = Vec::new();
    let mut i: usize = 0;
    while i < doc.materials.len()
        invariant
            doc.wf(),
            converted == doc.materials@.map_values(
                |e: (String, as_loaded::Material)| e.1.convert_spec(e.0),
            ),
            i <= doc.materials@.len(),
            materials@ == converted.take(i as int),
            forall|k: int| 0 <= k < i ==> (#[trigger] materials@[k]).wf(),
        decreases doc.materials@.len() - i,
    {
        let m = doc.materials[i].1.convert(doc.materials[i].0.clone());
        assert(doc.materials@[i as int].1.wf());
        materials.push(m);
        assert(converted.take(i + 1) =~= converted.take(i as int).push(m));
        i += 1;
    }
    assert(converted.take(i as int) =~= converted);
    assert(material_names(converted) =~= entry_names(doc.materials@));
    let air_name = String::from_str("air");
    let air = match find_material(&materials, &air_name) {
        Some(k) => k,
        None => {
            let ghost before = materials@;
            materials.push(Material::default_air());
            proof {
                assert(material_names(materials@) =~= material_names(before).push("air"@));
                lemma_first_index_push(material_names(before), "air"@);
            }
            materials.len() - 1
        },
    };
    proof {
        lemma_first_index(material_names(materials@), "air"@);
    }
    assert(materials@.take(converted.len() as int) =~= converted);
    (materials, air)
}

/// The document's boundary types resolved against `materials`, in order.
fn convert_boundary_types(doc: &as_loaded::Model, materials: &Vec<Material>) -> (r: Result<
    Vec<BoundaryType>,
    ModelError,
>)
    requires
        doc.wf(),
    ensures
        match r {
            Ok(ts) => {
                &&& convert_types(doc.boundary_types@, material_names(materials@)) == Ok::<
                    _,
                    ModelErrorView,
                >(ts@.map_values(|t: BoundaryType| t@))
                &&& ts@.len() == doc.boundary_types@.len()
                &&& forall|k: int| 0 <= k < ts@.len() ==> (#[trigger] ts@[k]).wf(materials@.len())
            },
            Err(e) => convert_types(doc.boundary_types@, material_names(materials@)) == Err::<
                Seq<BoundaryTypeView>,
                _,
            >(e@),
        },
{
    let ghost mnames = material_names(materials@);
    let ghost entries = doc.boundary_types@;
    let mut types: Vec<BoundaryType> = Vec::new();
    assert(entries.take(0) =~= Seq::<(String, as_loaded::BoundaryType)>::empty());
    assert(types@.map_values(|t: BoundaryType| t@) =~= Seq::<BoundaryTypeView>::empty());
    let mut i: usize = 0;
    while i < doc.boundary_types.len()
        invariant
            doc.wf(),
            entries == doc.boundary_types@,
            mnames == material_names(materials@),
            i <= entries.len(),
            types@.len() == i,
            convert_types(entries.take(i as int), mnames) == Ok::<_, ModelErrorView>(
                types@.map_values(|t: BoundaryType| t@),
            ),
            forall|k: int| 0 <= k < i ==> (#[trigger] types@[k]).wf(materials@.len()),
        decreases entries.len() - i,
    {
        assert(entries.take(i + 1).drop_last() =~= entries.take(i as int));
        assert(entries[i as int].1.wf());
        match doc.boundary_types[i].1.convert(doc.boundary_types[i].0.clone(), materials) {
            Ok(t) => {
                let ghost before = types@;
                types.push(t);
                assert(types@.map_values(|t: BoundaryType| t@) =~= before.map_values(
                    |t: BoundaryType| t@,
                ).push(t@));
            },
            Err(e) => {
                proof {
                    lemma_convert_types_prefix(entries, mnames, i + 1);
                }
                return Err(e);
            },
        }
        i += 1;
    }
    assert(entries.take(i as int) =~= entries);
    Ok(types)
}

/// Adds the adjacent zones of `entry`, whose own zone is the last of `zones`,
/// and the boundaries between it and them.
#[verifier::loop_isolation(false)]
fn add_adjacent_zones(
    entry: &(String, as_loaded::Zone),
    types: &Vec<(String, as_loaded::BoundaryType)>,
    zones: &mut Vec<Zone>,
    boundaries: &mut Vec<Boundary>,
) -> (r: Result<(), ModelError>)
    requires
        entry.1.wf(),
        old(zones)@.len() > 0,
        forall|k: int| 0 <= k < old(zones)@.len() ==> (#[trigger] old(zones)@[k]).wf(),
        forall|k: int|
            0 <= k < old(boundaries)@.len() ==> (#[trigger] old(boundaries)@[k]).wf(
                types@.len(),
                old(zones)@.len(),
            ),
    ensures
        match (
            r,
            adjacent_boundaries(
                entry.0@,
                entry.1.adjacent_zones@,
                old(zones)@.len() - 1,
                entry_names(types@),
            ),
        ) {
            (Ok(_), Ok(part)) => {
                &&& final(boundaries)@ == old(boundaries)@ + part
                &&& final(zones)@.map_values(|z: Zone| z@) == old(zones)@.map_values(|z: Zone| z@)
                    + entry.1.adjacent_zones@.map_values(
                    |a: as_loaded::AdjacentZone| adjacent_zone(entry.0@, a),
                )
                &&& forall|k: int| 0 <= k < final(zones)@.len() ==> (#[trigger] final(zones)@[k]).wf()
                &&& forall|k: int|
                    0 <= k < final(boundaries)@.len() ==> (#[trigger] final(boundaries)@[k]).wf(
                        types@.len(),
                        final(zones)@.len(),
                    )
            },
            (Err(e), Err(es)) => es == e@,
            _ => false,
        },
{
    let parent = zones.len() - 1;
    let ghost tnames = entry_names(types@);
    let ghost adjacent = entry.1.adjacent_zones@;
    let ghost zones_before = zones@.map_values(|z: Zone| z@);
    let ghost boundaries_before = boundaries@;
    let ghost mut part: Seq<Boundary> = Seq::empty();
    assert(adjacent.take(0) =~= Seq::<as_loaded::AdjacentZone>::empty());
    assert(zones@.map_values(|z: Zone| z@) =~= zones_before + adjacent.take(0).map_values(
        |a: as_loaded::AdjacentZone| adjacent_zone(entry.0@, a),
    ));
    let mut j: usize = 0;
    while j < entry.1.adjacent_zones.len()
        invariant
            entry.1.wf(),
            adjacent == entry.1.adjacent_zones@,
            tnames == entry_names(types@),
            j <= adjacent.len(),
            zones@.len() == parent + 1 + j,
            zones@.map_values(|z: Zone| z@) == zones_before + adjacent.take(j as int).map_values(
                |a: as_loaded::AdjacentZone| adjacent_zone(entry.0@, a),
            ),
            boundaries@ == boundaries_before + part,
            adjacent_boundaries(entry.0@, adjacent.take(j as int), parent as int, tnames) == Ok::<
                _,
                ModelErrorView,
            >(part),
            forall|k: int| 0 <= k < zones@.len() ==> (#[trigger] zones@[k]).wf(),
            forall|k: int|
                0 <= k < boundaries@.len() ==> (#[trigger] boundaries@[k]).wf(
                    types@.len(),
                    zones@.len(),
                ),
        decreases adjacent.len() - j,
    {
        let a = &entry.1.adjacent_zones[j];
        assert(bounded_area_of(adjacent, j as int));
        assert(adjacent.take(j + 1).drop_last() =~= adjacent.take(j as int));
        assert(adjacent.take(j + 1).last() == adjacent[j as int]);
        let mut child = entry.0.clone();
        child.append("/");
        child.append(a.suffix.as_str());
        assert(child@ == adjacent_name(entry.0@, a.suffix@));
        match get(types, &a.boundary_type) {
            None => {
                proof {
                    lemma_adjacent_prefix(entry.0@, adjacent, parent as int, tnames, j + 1);
                }
                return Err(
                    ModelError::MissingBoundaryType {
                        zones: (entry.0.clone(), child),
                        boundary_type: a.boundary_type.clone(),
                    },
                );
            },
            Some(t) => {
                proof {
                    lemma_first_index(tnames, a.boundary_type@);
                }
                let ghost zones_prev = zones@.map_values(|z: Zone| z@);
                zones.push(Zone { name: child, volume: Some(Volume { micro: 0 }) });
                assert(zones@.map_values(|z: Zone| z@) =~= zones_prev.push(
                    adjacent_zone(entry.0@, adjacent[j as int]),
                ));
                assert(adjacent.take(j + 1).map_values(
                    |a: as_loaded::AdjacentZone| adjacent_zone(entry.0@, a),
                ) =~= adjacent.take(j as int).map_values(
                    |a: as_loaded::AdjacentZone| adjacent_zone(entry.0@, a),
                ).push(adjacent_zone(entry.0@, adjacent[j as int])));
                let b = Boundary { boundary_type: t, zones: (parent, zones.len() - 1), area: a.area };
                boundaries.push(b);
                proof {
                    part = part.push(b);
                }
            },
        }
        j += 1;
    }
    assert(adjacent.take(j as int) =~= adjacent);
    Ok(())
}

/// The zones that the document defines, with their adjacent zones, and the
/// boundaries between zones and their adjacent zones.
fn expand_zones(doc: &as_loaded::Model) -> (r: Result<(Vec<Zone>, Vec<Boundary>), ModelError>)
    requires
        doc.wf(),
    ensures
        match (r, zone_boundaries(doc.zones@, entry_names(doc.boundary_types@))) {
            (Ok((zs, bs)), Ok(expected)) => {
                &&& zs@.map_values(|z: Zone| z@) == defined_zones(doc.zones@)
                &&& bs@ == expected
                &&& forall|k: int| 0 <= k < zs@.len() ==> (#[trigger] zs@[k]).wf()
                &&& forall|k: int|
                    0 <= k < bs@.len() ==> (#[trigger] bs@[k]).wf(
                        doc.boundary_types@.len(),
                        zs@.len(),
                    )
            },
            (Err(e), Err(es)) => es == e@,
            _ => false,
        },
{
    let ghost tnames = entry_names(doc.boundary_types@);
    let ghost entries = doc.zones@;
    let mut zones: Vec<Zone> = Vec::new();
    let mut boundaries: Vec<Boundary> = Vec::new();
    assert(entries.take(0) =~= Seq::<(String, as_loaded::Zone)>::empty());
    assert(zones@.map_values(|z: Zone| z@) =~= Seq::<ZoneView>::empty());
    let mut i: usize = 0;
    while i < doc.zones.len()
        invariant
            doc.wf(),
            entries == doc.zones@,
            tnames == entry_names(doc.boundary_types@),
            i <= entries.len(),
            zones@.map_values(|z: Zone| z@) == defined_zones(entries.take(i as int)),
            zone_boundaries(entries.take(i as int), tnames) == Ok::<_, ModelErrorView>(boundaries@),
            forall|k: int| 0 <= k < zones@.len() ==> (#[trigger] zones@[k]).wf(),
            forall|k: int|
                0 <= k < boundaries@.len() ==> (#[trigger] boundaries@[k]).wf(
                    doc.boundary_types@.len(),
                    zones@.len(),
                ),
        decreases entries.len() - i,
    {
        let entry = &doc.zones[i];
        assert(entries[i as int].1.wf());
        assert(entries.take(i + 1).drop_last() =~= entries.take(i as int));
        assert(entries.take(i + 1).last() == entries[i as int]);
        let ghost zones_before = zones@.map_values(|z: Zone| z@);
        let ghost boundaries_before = boundaries@;
        zones.push(Zone { name: entry.0.clone(), volume: entry.1.volume });
        assert(zones@.map_values(|z: Zone| z@) =~= zones_before.push(
            ZoneView { name: entry.0@, volume: entry.1.volume },
        ));
        let ghost zones_mid = zones@.map_values(|z: Zone| z@);
        match add_adjacent_zones(entry, &doc.boundary_types, &mut zones, &mut boundaries) {
            Ok(()) => {
                assert(zones@.map_values(|z: Zone| z@) =~= defined_zones(entries.take(i + 1)));
            },
            Err(e) => {
                proof {
                    lemma_zone_boundaries_prefix(entries, tnames, i + 1);
                }
                return Err(e);
            },
        }
        i += 1;
    }
    assert(entries.take(i as int) =~= entries);
    Ok((zones, boundaries))
}

/// Adds the expansion of the document's boundary `b`: its sub-boundaries, then
/// the area left over under its own type.
#[verifier::loop_isolation(false)]
fn push_expanded_boundary(
    b: &as_loaded::Boundary,
    zones: &Vec<Zone>,
    types: &Vec<(String, as_loaded::BoundaryType)>,
    boundaries: &mut Vec<Boundary>,
) -> (r: Result<(), ModelError>)
    requires
        b.wf(),
        forall|k: int|
            0 <= k < old(boundaries)@.len() ==> (#[trigger] old(boundaries)@[k]).wf(
                types@.len(),
                zones@.len(),
            ),
    ensures
        match (r, expand_boundary(*b, zone_names(zones@), entry_names(types@))) {
            (Ok(_), Ok(part)) => {
                &&& final(boundaries)@ == old(boundaries)@ + part
                &&& forall|k: int|
                    0 <= k < final(boundaries)@.len() ==> (#[trigger] final(boundaries)@[k]).wf(
                        types@.len(),
                        zones@.len(),
                    )
            },
            (Err(e), Err(es)) => es == e@,
            _ => false,
        },
{
    let ghost znames = zone_names(zones@);
    let ghost tnames = entry_names(types@);
    let z0 = match find_zone(zones, &b.zones.0) {
        Some(z) => z,
        None => {
            return Err(
                ModelError::MissingZone {
                    zones: (b.zones.0.clone(), b.zones.1.clone()),
                    zone: b.zones.0.clone(),
                },
            );
        },
    };
    let z1 = match find_zone(zones, &b.zones.1) {
        Some(z) => z,
        None => {
            return Err(
                ModelError::MissingZone {
                    zones: (b.zones.0.clone(), b.zones.1.clone()),
                    zone: b.zones.1.clone(),
                },
            );
        },
    };
    proof {
        lemma_first_index(znames, b.zones.0@);
        lemma_first_index(znames, b.zones.1@);
    }
    let ghost names = (b.zones.0@, b.zones.1@);
    let ghost subs = b.sub_boundaries@;
    let ghost before = boundaries@;
    let ghost mut part: Seq<Boundary> = Seq::empty();
    let mut remaining: u64 = b.area.micro;
    assert(subs.take(0) =~= Seq::<as_loaded::SubBoundary>::empty());
    let mut j: usize = 0;
    while j < b.sub_boundaries.len()
        invariant
            b.wf(),
            subs == b.sub_boundaries@,
            znames == zone_names(zones@),
            tnames == entry_names(types@),
            names == (b.zones.0@, b.zones.1@),
            z0 < zones@.len(),
            z1 < zones@.len(),
            j <= subs.len(),
            remaining <= b.area.micro,
            sub_boundaries(subs.take(j as int), names, (z0, z1), b.area.micro as int, tnames)
                == Ok::<_, ModelErrorView>((part, remaining as int)),
            boundaries@ == before + part,
            forall|q: int|
                0 <= q < boundaries@.len() ==> (#[trigger] boundaries@[q]).wf(
                    types@.len(),
                    zones@.len(),
                ),
        decreases subs.len() - j,
    {
        let s = &b.sub_boundaries[j];
        assert(bounded_sub_area_of(subs, j as int));
        assert(subs.take(j + 1).drop_last() =~= subs.take(j as int));
        assert(subs.take(j + 1).last() == subs[j as int]);
        if s.area.micro > remaining {
            proof {
                lemma_sub_prefix(subs, names, (z0, z1), b.area.micro as int, tnames, j + 1);
            }
            return Err(ModelError::SubBoundaryArea { zones: (b.zones.0.clone(), b.zones.1.clone()) });
        }
        remaining = remaining - s.area.micro;
        match get(types, &s.boundary_type) {
            None => {
                proof {
                    lemma_sub_prefix(subs, names, (z0, z1), b.area.micro as int, tnames, j + 1);
                }
                return Err(
                    ModelError::MissingBoundaryType {
                        zones: (b.zones.0.clone(), b.zones.1.clone()),
                        boundary_type: s.boundary_type.clone(),
                    },
                );
            },
            Some(t) => {
                proof {
                    lemma_first_index(tnames, s.boundary_type@);
                }
                let nb = Boundary { boundary_type: t, zones: (z0, z1), area: s.area };
                boundaries.push(nb);
                proof {
                    part = part.push(nb);
                }
            },
        }
        j += 1;
    }
    assert(subs.take(j as int) =~= subs);
    match get(types, &b.boundary_type) {
        None => {
            return Err(
                ModelError::MissingBoundaryType {
                    zones: (b.zones.0.clone(), b.zones.1.clone()),
                    boundary_type: b.boundary_type.clone(),
                },
            );
        },
        Some(t) => {
            proof {
                lemma_first_index(tnames, b.boundary_type@);
            }
            let nb = Boundary { boundary_type: t, zones: (z0, z1), area: Area { micro: remaining } };
            boundaries.push(nb);
            assert(boundaries@ =~= before + part.push(nb));
        },
    }
    Ok(())
}

impl Model {
    /// Validates `value` and resolves every name in it.
    ///
    /// On success the model holds the document's materials (and the default air
    /// after them if the document defines none), its boundary types, its zones
    /// each followed by its adjacent zones and then the reserved outer zones
    /// "outside" and "ground", and the boundaries of the adjacent zones followed by
    /// the document's boundaries, each split into its sub-boundaries and the area
    /// left over.
    #[verifier::loop_isolation(false)]
    pub fn try_from(value: as_loaded::Model) -> (r: Result<Model, ModelError>)
        requires
            value.wf(),
        ensures
            match r {
                Ok(m) => {
                    &&& load_spec(value) == Ok::<_, ModelErrorView>(
                        (m.boundary_types@.map_values(|t: BoundaryType| t@), m.boundaries@),
                    )
                    &&& materials_match(value, m.materials@, m.air as int)
                    &&& m.zones@.map_values(|z: Zone| z@) == model_zones(value)
                    &&& m.wf()
                },
                Err(e) => load_spec(value) == Err::<(Seq<BoundaryTypeView>, Seq<Boundary>), _>(e@),
            },
    {
        let outside = String::from_str("outside");
        let ground = String::from_str("ground");
        if get(&value.zones, &outside).is_some() {
            return Err(ModelError::ReservedZone { zone: outside });
        }
        if get(&value.zones, &ground).is_some() {
            return Err(ModelError::ReservedZone { zone: ground });
        }
        let (materials, air) = convert_materials(&value);
        let types = match convert_boundary_types(&value, &materials) {
            Ok(ts) => ts,
            Err(e) => {
                return Err(e);
            },
        };
        let (mut zones, mut boundaries) = match expand_zones(&value) {
            Ok(zb) => zb,
            Err(e) => {
                return Err(e);
            },
        };
        let ghost adjacent_bs = boundaries@;
        let ghost defined = zones@.map_values(|z: Zone| z@);
        zones.push(Zone { name: outside, volume: None });
        zones.push(Zone { name: ground, volume: None });
        assert(zones@.map_values(|z: Zone| z@) =~= defined.push(ZoneView { name: "outside"@, volume: None }).push(ZoneView { name: "ground"@, volume: None }));
        assert(zones@.map_values(|z: Zone| z@) =~= model_zones(value));
        let ghost znames = zone_view_names(model_zones(value));
        let ghost tnames = entry_names(value.boundary_types@);
        assert(zone_names(zones@) =~= znames);

        let ghost doc_bs = value.boundaries@;
        let ghost mut part: Seq<Boundary> = Seq::empty();
        assert(doc_bs.take(0) =~= Seq::<as_loaded::Boundary>::empty());
        let mut k: usize = 0;
        while k < value.boundaries.len()
            invariant
                value.wf(),
                doc_bs == value.boundaries@,
                znames == zone_names(zones@),
                tnames == entry_names(value.boundary_types@),
                types@.len() == value.boundary_types@.len(),
                k <= doc_bs.len(),
                boundaries@ == adjacent_bs + part,
                expand_boundaries(doc_bs.take(k as int), znames, tnames) == Ok::<_, ModelErrorView>(
                    part,
                ),
                forall|q: int|
                    0 <= q < boundaries@.len() ==> (#[trigger] boundaries@[q]).wf(
                        types@.len(),
                        zones@.len(),
                    ),
            decreases doc_bs.len() - k,
        {
            assert(doc_bs[k as int].wf());
            assert(doc_bs.take(k + 1).drop_last() =~= doc_bs.take(k as int));
            assert(doc_bs.take(k + 1).last() == doc_bs[k as int]);
            let ghost before = boundaries@;
            let ghost expanded = expand_boundary(doc_bs[k as int], znames, tnames);
            match push_expanded_boundary(&value.boundaries[k], &zones, &value.boundary_types, &mut boundaries) {
                Ok(()) => {
                    proof {
                        let added = expanded->Ok_0;
                        assert(boundaries@ == before + added);
                        part = part + added;
                        assert(boundaries@ =~= adjacent_bs + part);
                    }
                },
                Err(e) => {
                    proof {
                        assert(expand_boundaries(doc_bs.take(k + 1), znames, tnames) == Err::<Seq<Boundary>, ModelErrorView>(e@));
                        lemma_expand_prefix(doc_bs, znames, tnames, k + 1);
                        assert(reserved_error(value) is None);
                    }
                    return Err(e);
                },
            }
            k += 1;
        }
        assert(doc_bs.take(k as int) =~= doc_bs);
        Ok(Model { materials, boundary_types: types, zones, boundaries, air })
    }
}

/// The area of the adjacent zone at `j` is in range.
pub open spec fn bounded_area_of(adjacent: Seq<as_loaded::AdjacentZone>, j: int) -> bool {
    crate::units::bounded(adjacent[j].area.micro)
}

/// The area of the sub-boundary at `j` is in range.
pub open spec fn bounded_sub_area_of(subs: Seq<as_loaded::SubBoundary>, j: int) -> bool {
    crate::units::bounded(subs[j].area.micro)
}

} // verus!
