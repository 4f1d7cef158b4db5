//! Finding catalog entries by name.

use crate::model::{Material, Zone};
use vstd::prelude::*;

verus! {

/// Index of the first entry of `names` equal to `name`.
pub open spec fn first_index(names: Seq<Seq<char>>, name: Seq<char>) -> Option<int>
    decreases names.len(),
{
    if names.len() == 0 {
        None
    } else if let Some(i) = first_index(names.drop_last(), name) {
        Some(i)
    } else if names.last() == name {
        Some(names.len() - 1)
    } else {
        None
    }
}

pub open spec fn material_names(materials: Seq<Material>) -> Seq<Seq<char>> {
    materials.map_values(|m: Material| m.name@)
}

pub open spec fn zone_names(zones: Seq<Zone>) -> Seq<Seq<char>> {
    zones.map_values(|z: Zone| z.name@)
}

pub open spec fn entry_names<V>(entries: Seq<(String, V)>) -> Seq<Seq<char>> {
    entries.map_values(|e: (String, V)| e.0@)
}

/// The first match, if any, lies in range and carries the name; none before it does.
pub proof fn lemma_first_index(names: Seq<Seq<char>>, name: Seq<char>)
    ensures
        first_index(names, name) matches Some(i) ==> 0 <= i < names.len() && names[i] == name
            && forall|j: int| 0 <= j < i ==> names[j] != name,
        first_index(names, name) is None ==> forall|j: int| 0 <= j < names.len() ==> names[j] != name,
    decreases names.len(),
{
    if names.len() > 0 {
        let d = names.drop_last();
        lemma_first_index(d, name);
        assert forall|j: int| 0 <= j < d.len() implies d[j] == names[j] by {}
    }
}

/// One step of a forward scan.
proof fn lemma_first_index_step(names: Seq<Seq<char>>, name: Seq<char>, k: int)
    requires
        0 <= k < names.len(),
        first_index(names.take(k), name) is None,
    ensures
        first_index(names.take(k + 1), name) == (if names[k] == name {
            Some(k)
        } else {
            None::<int>
        }),
{
    assert(names.take(k + 1).drop_last() =~= names.take(k));
}

/// A match found in a prefix is the first match of the whole sequence.
proof fn lemma_first_index_prefix(names: Seq<Seq<char>>, name: Seq<char>, k: int)
    requires
        0 <= k <= names.len(),
        first_index(names.take(k), name) is Some,
    ensures
        first_index(names, name) == first_index(names.take(k), name),
    decreases names.len() - k,
{
    if k < names.len() {
        assert(names.take(k + 1).drop_last() =~= names.take(k));
        lemma_first_index_prefix(names, name, k + 1);
    } else {
        assert(names.take(k) =~= names);
    }
}

/// Index of the first material called `name`.
pub fn find_material(materials: &Vec<Material>, name: &String) -> (r: Option<usize>)
    ensures
        match r {
            Some(i) => first_index(material_names(materials@), name@) == Some(i as int),
            None => first_index(material_names(materials@), name@) is None,
        },
{
    let ghost names = material_names(materials@);
    let mut i: usize = 0;
    while i < materials.len()
        invariant
            i <= materials@.len(),
            names == material_names(materials@),
            first_index(names.take(i as int), name@) is None,
        decreases materials@.len() - i,
    {
        proof {
            lemma_first_index_step(names, name@, i as int);
        }
        if materials[i].name == *name {
            proof {
                lemma_first_index_prefix(names, name@, i + 1);
            }
            return Some(i);
        }
        i += 1;
    }
    proof {
        assert(names.take(i as int) =~= names);
    }
    None
}

/// Index of the first zone called `name`.
pub fn find_zone(zones: &Vec<Zone>, name: &String) -> (r: Option<usize>)
    ensures
        match r {
            Some(i) => first_index(zone_names(zones@), name@) == Some(i as int),
            None => first_index(zone_names(zones@), name@) is None,
        },
{
    let ghost names = zone_names(zones@);
    let mut i: usize = 0;
    while i < zones.len()
        invariant
            i <= zones@.len(),
            names == zone_names(zones@),
            first_index(names.take(i as int), name@) is None,
        decreases zones@.len() - i,
    {
        proof {
            lemma_first_index_step(names, name@, i as int);
        }
        if zones[i].name == *name {
            proof {
                lemma_first_index_prefix(names, name@, i + 1);
            }
            return Some(i);
        }
        i += 1;
    }
    proof {
        assert(names.take(i as int) =~= names);
    }
    None
}

/// Index of the first entry whose key is `key`.
pub fn get<V>(entries: &Vec<(String, V)>, key: &String) -> (r: Option<usize>)
    ensures
        match r {
            Some(i) => first_index(entry_names(entries@), key@) == Some(i as int),
            None => first_index(entry_names(entries@), key@) is None,
        },
{
    let ghost names = entry_names(entries@);
    let mut i: usize = 0;
    while i < entries.len()
        invariant
            i <= entries@.len(),
            names == entry_names(entries@),
            first_index(names.take(i as int), key@) is None,
        decreases entries@.len() - i,
    {
        proof {
            lemma_first_index_step(names, key@, i as int);
        }
        if entries[i].0 == *key {
            proof {
                lemma_first_index_prefix(names, key@, i + 1);
            }
            return Some(i);
        }
        i += 1;
    }
    proof {
        assert(names.take(i as int) =~= names);
    }
    None
}

} // verus!
