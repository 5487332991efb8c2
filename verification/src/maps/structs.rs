//! Crop data of the map reader.
use vstd::prelude::*;
use crate::collections::{StrMap, map_insert, map_keys, no_dups, lookup, lemma_key_index};

verus! {

/// Static version of the crop types
#[derive(Debug, Clone, Copy)]
pub struct CropTypeState {
    /// Crop name
    pub name: &'static str,
    /// Last valid harvest state
    pub max_harvest: u8,
    /// First valid harvest state
    pub min_harvest: u8,
    /// Number of growth states (note: states+1 is usually withered)
    pub states: u8,
}

/// Dynamic version of the crop types
#[derive(Debug)]
pub struct CropTypeStateBuilder {
    /// Last valid harvest state
    pub max_harvest: u8,
    /// First valid harvest state
    pub min_harvest: u8,
    /// Name of crop
    pub name: String,
    /// Number of growth states (note: states+1 is usually withered)
    pub states: u8,
}

/// Static season definition
#[derive(Debug, Clone, Copy)]
pub struct CropSeason {
    /// Name of season
    pub name: &'static str,
    /// Min temperature in celsius
    pub min: i8,
    /// Max temperature in celsius
    pub max: i8,
}

/// Static crop definition
#[derive(Debug, Clone, Copy)]
pub struct Crop {
    /// Name of crop
    pub name: &'static str,
    /// Periods for full growth
    pub growth_time: u8,
    /// Periods for valid harvest - 12 booleans
    pub harvest_periods: [bool; 12],
    /// Periods for valid sowing - 12 booleans
    pub plant_periods: [bool; 12],
}

/// Dynamic crop definition
#[derive(Debug)]
pub struct CropOutput {
    /// Periods for full growth
    pub growth_time: u8,
    /// Periods for valid harvest - vector of periods
    pub harvest_periods: Vec<u8>,
    /// Periods for valid sowing - vector of periods
    pub plant_periods: Vec<u8>,
}

/// A crop definition, as plain values.
pub struct CropOutputView {
    /// periods for full growth
    pub growth_time: u8,
    /// harvest periods
    pub harvest_periods: Seq<u8>,
    /// planting periods
    pub plant_periods: Seq<u8>,
}

impl View for CropOutput {
    type V = CropOutputView;

    open spec fn view(&self) -> CropOutputView {
        CropOutputView { growth_time: self.growth_time, harvest_periods: self.harvest_periods@, plant_periods: self.plant_periods@ }
    }
}

impl CropOutput {
    /// create new crop output
    pub fn new(growth_time: u8) -> (r: CropOutput)
        ensures
            r@ == (CropOutputView { growth_time, harvest_periods: Seq::empty(), plant_periods: Seq::empty() }),
    {
        let r = CropOutput { growth_time, harvest_periods: Vec::new(), plant_periods: Vec::new() };
        assert(r@.harvest_periods =~= Seq::<u8>::empty());
        assert(r@.plant_periods =~= Seq::<u8>::empty());
        r
    }
}

/// Crop listing
#[derive(Debug)]
pub struct CropList {
    /// Internal List
    list: StrMap<CropOutput>,
    /// Intended Order
    order: Vec<String>,
}

impl CropList {
    /// Each crop name is held once.
    #[verifier::type_invariant]
    closed spec fn names_once(self) -> bool {
        no_dups(map_keys(self.list@))
    }

    /// The crops by name.
    pub closed spec fn spec_list(&self) -> Seq<(Seq<char>, CropOutputView)> {
        self.list@
    }

    /// The names in the order they were added.
    pub closed spec fn spec_order(&self) -> Seq<Seq<char>> {
        self.order@.map_values(|s: String| s@)
    }

    /// Number of crops in list
    pub fn len(&self) -> (r: usize)
        ensures
            r == self.spec_list().len(),
            r == map_keys(self.spec_list()).to_set().len(),
    {
        proof {
            use_type_invariant(self);
            let ks = map_keys(self.list@);
            assert(ks.no_duplicates()) by {
                assert forall|i: int, j: int| 0 <= i < ks.len() && 0 <= j < ks.len() && i != j implies ks[i] != ks[j] by {
                    if i < j { assert(ks[i] != ks[j]); } else { assert(ks[j] != ks[i]); }
                }
            }
            ks.unique_seq_to_set();
        }
        self.list.len()
    }

    /// is crop list empty?
    pub fn is_empty(&self) -> (r: bool)
        ensures
            r == (self.spec_list().len() == 0),
    {
        self.list.len() == 0
    }

    /// Add a crop to the list
    pub fn insert(&mut self, key: String, value: CropOutput)
        ensures
            final(self).spec_list() == map_insert(old(self).spec_list(), key@, value@),
            final(self).spec_order() == old(self).spec_order().push(key@),
            final(self).spec_list().len() == old(self).spec_list().len()
                + if lookup(old(self).spec_list(), key@) is Some { 0int } else { 1int },
    {
        proof { use_type_invariant(&*self); }
        let k2 = key.clone();
        let mut list: StrMap<CropOutput> = StrMap::new();
        std::mem::swap(&mut list, &mut self.list);
        list.insert(key, value);
        std::mem::swap(&mut list, &mut self.list);
        let mut order: Vec<String> = Vec::new();
        std::mem::swap(&mut order, &mut self.order);
        order.push(k2);
        std::mem::swap(&mut order, &mut self.order);
        assert(self.spec_order() =~= old(self).spec_order().push(key@));
    }

    /// Get a crop from the list by &str key
    pub fn get(&mut self, key: &str) -> (r: Option<&CropOutput>)
        ensures
            match r {
                Some(c) => lookup(old(self).spec_list(), key@) == Some(c@),
                None => lookup(old(self).spec_list(), key@) is None,
            },
            final(self).spec_list() == old(self).spec_list(),
            final(self).spec_order() == old(self).spec_order(),
    {
        proof { lemma_key_index(self.list@, key@); }
        match self.list.find(key) {
            Some(i) => Some(&self.list.entries[i].1),
            None => None,
        }
    }

    /// The crop names in the order they were added (a name added twice
    /// comes twice).
    pub fn names(&self) -> (r: Vec<String>)
        ensures
            r@.map_values(|s: String| s@) == self.spec_order(),
    {
        let mut r: Vec<String> = Vec::new();
        let mut i: usize = 0;
        while i < self.order.len()
            invariant
                i <= self.order@.len(),
                r@.len() == i,
                forall|j: int| 0 <= j < i ==> (#[trigger] r@[j])@ == self.order@[j]@,
            decreases self.order.len() - i,
        {
            let name = self.order[i].clone();
            r.push(name);
            i = i + 1;
        }
        assert(r@.map_values(|s: String| s@) =~= self.spec_order());
        r
    }

    /// Create new crop list
    pub fn new() -> (r: CropList)
        ensures
            r.spec_list().len() == 0,
            r.spec_order().len() == 0,
    {
        CropList { list: StrMap::new(), order: Vec::new() }
    }
}

} // verus!
