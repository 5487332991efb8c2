//! Crops of a map: in which periods each crop is planted and harvested.
use vstd::prelude::*;
use crate::collections::{StrMap, map_insert, lookup, key_index, lemma_lookup_insert};
use crate::files::PeriodMask;
use super::fruit_types::{FruitType, FruitTypes};
use super::growth::{Growth, growth_wf, planting, harvest};

verus! {

/// Crop record
#[derive(Debug, Clone, Copy, PartialEq, Eq, Structural)]
pub struct Crop {
    /// planting periods
    pub plant: PeriodMask,
    /// harvest periods
    pub harvest: PeriodMask,
}

/// A crop record, as sets of periods.
pub struct CropView {
    /// planting periods
    pub plant: Set<int>,
    /// harvest periods
    pub harvest: Set<int>,
}

impl View for Crop {
    type V = CropView;

    open spec fn view(&self) -> CropView {
        CropView { plant: self.plant@, harvest: self.harvest@ }
    }
}

/// Set of map crops: crop name to its record
#[derive(Debug)]
pub struct Crops(pub StrMap<Crop>);

impl View for Crops {
    type V = Seq<(Seq<char>, CropView)>;

    open spec fn view(&self) -> Self::V {
        self.0@
    }
}

/// The crops of a fruit types list with a growth table: for each fruit
/// type in order, its planting and harvest periods.
pub open spec fn crops_from(f: Seq<(Seq<char>, FruitType)>, g: Seq<(Seq<char>, Seq<super::growth::GrowCropView>)>)
    -> Seq<(Seq<char>, CropView)>
    decreases f.len(),
{
    if f.len() == 0 {
        Seq::empty()
    } else {
        let (name, fruit) = f.last();
        map_insert(crops_from(f.drop_last(), g), name,
            CropView { plant: planting(g, name), harvest: harvest(g, name, fruit) })
    }
}

/// The crops of a map hold one entry for each fruit type name: a name has
/// a crop exactly where the fruit types name it, and its crop is planted and
/// harvested as the growth table says for that name and one of its fruit
/// types (the only one, where the names are distinct).
pub proof fn law_crops_from(f: Seq<(Seq<char>, FruitType)>, g: Seq<(Seq<char>, Seq<super::growth::GrowCropView>)>, k: Seq<char>)
    ensures
        lookup(crops_from(f, g), k) is Some <==> exists|i: int| 0 <= i < f.len() && #[trigger] f[i].0 == k,
        lookup(crops_from(f, g), k) matches Some(c) ==> exists|i: int| 0 <= i < f.len() && #[trigger] f[i].0 == k
            && c == (CropView { plant: planting(g, k), harvest: harvest(g, k, f[i].1) }),
    decreases f.len(),
{
    if f.len() == 0 {
        assert(key_index(crops_from(f, g), k) is None);
    } else {
        let f0 = f.drop_last();
        let (name, fruit) = f.last();
        let r0 = crops_from(f0, g);
        let cv = CropView { plant: planting(g, name), harvest: harvest(g, name, fruit) };
        law_crops_from(f0, g, k);
        lemma_lookup_insert(r0, name, cv, k);
        if k == name {
            assert(f[f.len() - 1].0 == k);
        } else {
            if exists|i: int| 0 <= i < f.len() && #[trigger] f[i].0 == k {
                let i = choose|i: int| 0 <= i < f.len() && #[trigger] f[i].0 == k;
                assert(i < f.len() - 1);
                assert(f0[i].0 == k);
            }
            if exists|i: int| 0 <= i < f0.len() && #[trigger] f0[i].0 == k {
                let i = choose|i: int| 0 <= i < f0.len() && #[trigger] f0[i].0 == k;
                assert(f[i] == f0[i]);
            }
        }
    }
}

/// A base game crop from its two period bit masks.
pub open spec fn base_crop(plant: u16, harvest: u16) -> CropView {
    CropView { plant: PeriodMask(plant)@, harvest: PeriodMask(harvest)@ }
}

/// Base game crops (FS22).
pub open spec fn base_crops() -> Seq<(Seq<char>, CropView)> {
    seq![
        ("wheat"@, base_crop(0b0000_0011_0000, 0b0000_1100_0000)),
        ("barley"@, base_crop(0b0000_0011_0000, 0b0001_1000_0000)),
        ("canola"@, base_crop(0b0000_0110_0000, 0b0000_1100_0000)),
        ("oat"@, base_crop(0b1100_0000_0000, 0b0000_1100_0000)),
        ("maize"@, base_crop(0b0110_0000_0000, 0b0000_0001_1000)),
        ("sunflower"@, base_crop(0b1100_0000_0000, 0b0000_0001_1000)),
        ("soybean"@, base_crop(0b0110_0000_0000, 0b0000_0001_1000)),
        ("potato"@, base_crop(0b1100_0000_0000, 0b0000_0110_0000)),
        ("sugarbeet"@, base_crop(0b1100_0000_0000, 0b0000_0001_1000)),
        ("sugarcane"@, base_crop(0b1100_0000_0000, 0b0000_0001_1000)),
        ("cotton"@, base_crop(0b1000_0000_0001, 0b0000_0001_1000)),
        ("sorghum"@, base_crop(0b0110_0000_0000, 0b0000_0110_0000)),
        ("grape"@, base_crop(0b1100_0000_0000, 0b0000_0011_0000)),
        ("olive"@, base_crop(0b1111_0000_0000, 0b0000_0001_0000)),
        ("poplar"@, base_crop(0b1111_1100_0000, 0b1111_1111_1111)),
        ("grass"@, base_crop(0b1111_1111_1000, 0b1111_1111_1111)),
        ("oilseedradish"@, base_crop(0b1111_1111_0000, 0b1111_1111_1111)),
    ]
}

/// A base game crop entry.
fn base_entry(name: &str, plant: u16, harvest: u16) -> (r: (String, Crop))
    ensures
        r.0@ == name@,
        r.1@ == base_crop(plant, harvest),
{
    (crate::savegame::to_owned_str(name), Crop { plant: PeriodMask(plant), harvest: PeriodMask(harvest) })
}

impl Crops {
    /// No crops.
    pub fn new() -> (r: Crops)
        ensures
            r@.len() == 0,
    {
        Crops(StrMap::new())
    }

    /// Create crops from 2 file records
    pub fn from_files(fruits: &FruitTypes, growth: &Growth) -> (r: Crops)
        requires
            growth_wf(growth@),
        ensures
            r@ == crops_from(fruits@, growth@),
    {
        let mut crops = Crops::new();
        let mut i: usize = 0;
        assert(crops@ =~= crops_from(fruits@.subrange(0, 0), growth@));
        while i < fruits.0.entries.len()
            invariant
                i <= fruits@.len(),
                fruits@.len() == fruits.0.entries@.len(),
                growth_wf(growth@),
                crops@ == crops_from(fruits@.subrange(0, i as int), growth@),
            decreases fruits.0.entries.len() - i,
        {
            let name = &fruits.0.entries[i].0;
            let fruit = &fruits.0.entries[i].1;
            let harvest = growth.get_harvest(name.as_str(), fruit);
            let plant = growth.get_planting(name.as_str());
            assert(fruits@.subrange(0, i + 1).drop_last() =~= fruits@.subrange(0, i as int));
            assert(fruits@.subrange(0, i + 1).last() == (name@, *fruit));
            crops.0.insert(name.clone(), Crop { plant, harvest });
            i = i + 1;
        }
        assert(fruits@.subrange(0, fruits@.len() as int) =~= fruits@);
        crops
    }

    /// Create crops from base only
    pub fn from_base() -> (r: Crops)
        ensures
            r@ == base_crops(),
    {
        let mut v: Vec<(String, Crop)> = Vec::new();
        v.push(base_entry("wheat", 0b0000_0011_0000, 0b0000_1100_0000));
        v.push(base_entry("barley", 0b0000_0011_0000, 0b0001_1000_0000));
        v.push(base_entry("canola", 0b0000_0110_0000, 0b0000_1100_0000));
        v.push(base_entry("oat", 0b1100_0000_0000, 0b0000_1100_0000));
        v.push(base_entry("maize", 0b0110_0000_0000, 0b0000_0001_1000));
        v.push(base_entry("sunflower", 0b1100_0000_0000, 0b0000_0001_1000));
        v.push(base_entry("soybean", 0b0110_0000_0000, 0b0000_0001_1000));
        v.push(base_entry("potato", 0b1100_0000_0000, 0b0000_0110_0000));
        v.push(base_entry("sugarbeet", 0b1100_0000_0000, 0b0000_0001_1000));
        v.push(base_entry("sugarcane", 0b1100_0000_0000, 0b0000_0001_1000));
        v.push(base_entry("cotton", 0b1000_0000_0001, 0b0000_0001_1000));
        v.push(base_entry("sorghum", 0b0110_0000_0000, 0b0000_0110_0000));
        v.push(base_entry("grape", 0b1100_0000_0000, 0b0000_0011_0000));
        v.push(base_entry("olive", 0b1111_0000_0000, 0b0000_0001_0000));
        v.push(base_entry("poplar", 0b1111_1100_0000, 0b1111_1111_1111));
        v.push(base_entry("grass", 0b1111_1111_1000, 0b1111_1111_1111));
        v.push(base_entry("oilseedradish", 0b1111_1111_0000, 0b1111_1111_1111));
        let r = Crops(StrMap { entries: v });
        assert(r@ =~= base_crops());
        r
    }
}

} // verus!
