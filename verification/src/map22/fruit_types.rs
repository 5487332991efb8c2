//! Fruit types of a map: the growth states in which a crop can be harvested.
use vstd::prelude::*;
use crate::errors::AbstractFileError;
use crate::collections::{StrMap, map_insert};
use crate::files::{AbstractFile, spec_text};
use crate::text::{lower_seq, to_chars, to_lower, chars_eq, from_chars};
use crate::xml::{XmlEvent, XmlTag, tag_attr, attr_usize, get_attribute, get_attribute_usize, tag_is, events_of};

verus! {

/// Fruit type
#[derive(Debug, Clone, Copy, PartialEq, Eq, Structural)]
pub struct FruitType {
    /// Last valid harvest state
    pub max_harvest: usize,
    /// First valid harvest state
    pub min_harvest: usize,
}

impl View for FruitType {
    type V = FruitType;

    open spec fn view(&self) -> FruitType {
        *self
    }
}

impl FruitType {
    /// Create crop record where all values match
    pub fn singleton(v: usize) -> (r: FruitType)
        ensures
            r.max_harvest == v,
            r.min_harvest == v,
    {
        FruitType { max_harvest: v, min_harvest: v }
    }
}

/// Fruit types, from base or file: lower-case crop name to fruit type
#[derive(Debug)]
pub struct FruitTypes(pub StrMap<FruitType>);

impl View for FruitTypes {
    type V = Seq<(Seq<char>, FruitType)>;

    open spec fn view(&self) -> Self::V {
        self.0@
    }
}

/// A fruit type, as the base game's data write it.
pub open spec fn fruit(min: usize, max: usize) -> FruitType {
    FruitType { max_harvest: max, min_harvest: min }
}

/// The base game's fruit types (FS22).
pub open spec fn base_fruit_types() -> Seq<(Seq<char>, FruitType)> {
    seq![
        ("wheat"@, fruit(8, 8)), ("barley"@, fruit(7, 7)), ("canola"@, fruit(9, 9)),
        ("oat"@, fruit(5, 5)), ("maize"@, fruit(7, 7)), ("sunflower"@, fruit(8, 8)),
        ("soybean"@, fruit(7, 7)), ("potato"@, fruit(6, 6)), ("sugarbeet"@, fruit(8, 8)),
        ("sugarcane"@, fruit(8, 8)), ("cotton"@, fruit(9, 9)), ("sorghum"@, fruit(5, 5)),
        ("grape"@, fruit(10, 11)), ("olive"@, fruit(9, 10)), ("poplar"@, fruit(14, 14)),
        ("grass"@, fruit(3, 4)), ("oilseedradish"@, fruit(2, 2)),
    ]
}

/// The fruit type a `<harvest>` or `<preparing>` tag leaves, from `(min, max)`.
pub open spec fn fruit_tag(t: XmlTag, min: nat, max: nat) -> (nat, nat) {
    if t.name@ == "harvest"@ {
        (match attr_usize(t, "minHarvestingGrowthState"@) { Some(v) => v, None => min },
         match attr_usize(t, "maxHarvestingGrowthState"@) { Some(v) => v, None => max })
    } else if t.name@ == "preparing"@ {
        (match attr_usize(t, "minGrowthState"@) { Some(v) => v, None => min },
         match attr_usize(t, "maxGrowthState"@) { Some(v) => v, None => max })
    } else {
        (min, max)
    }
}

/// Reading the children of a `<fruitType>` from event `j` on: the harvest
/// states and where reading goes on. At the end of the document reading stops there.
pub open spec fn fruit_type_run(evs: Seq<XmlEvent>, j: int, min: nat, max: nat) -> (nat, nat, int)
    decreases evs.len() - j,
{
    if j < 0 || j >= evs.len() {
        (min, max, evs.len() as int)
    } else {
        match evs[j] {
            XmlEvent::Start(t) => {
                let (a, b) = fruit_tag(t, min, max);
                fruit_type_run(evs, j + 1, a, b)
            },
            XmlEvent::Empty(t) => {
                let (a, b) = fruit_tag(t, min, max);
                fruit_type_run(evs, j + 1, a, b)
            },
            XmlEvent::End(n) => if n@ == "fruitType"@ { (min, max, j + 1) } else { fruit_type_run(evs, j + 1, min, max) },
            XmlEvent::Eof => (min, max, j),
            _ => fruit_type_run(evs, j + 1, min, max),
        }
    }
}

/// Reading a fruitTypes file from event `i` on, with `depth` open tags.
pub open spec fn fruit_types_run(evs: Seq<XmlEvent>, i: int, depth: int, found: bool, acc: Seq<(Seq<char>, FruitType)>)
    -> Result<Seq<(Seq<char>, FruitType)>, AbstractFileError>
    decreases evs.len() - i,
{
    if i < 0 || i >= evs.len() {
        if found { Ok(acc) } else { Err(AbstractFileError::XmlUndeclared) }
    } else {
        match evs[i] {
            XmlEvent::Error => Err(AbstractFileError::XmlParseError),
            XmlEvent::Decl => fruit_types_run(evs, i + 1, depth, true, acc),
            XmlEvent::Eof => if found { Ok(acc) } else { Err(AbstractFileError::XmlUndeclared) },
            XmlEvent::End(_) => fruit_types_run(evs, i + 1, depth - 1, found, acc),
            XmlEvent::Start(t) => if t.name@ == "map"@ && depth == 0 {
                fruit_types_run(evs, i + 1, depth + 1, found, acc)
            } else if t.name@ == "fruitType"@ && depth == 2 {
                match tag_attr(t, "name"@) {
                    None => fruit_types_run(evs, i + 1, depth, found, acc),
                    Some(n) => {
                        let (min, max, k) = fruit_type_run(evs, i + 1, 1, 1);
                        let acc2 = if lower_seq(n) != "meadow"@ {
                            map_insert(acc, lower_seq(n), fruit(min as usize, max as usize))
                        } else {
                            acc
                        };
                        if i < k <= evs.len() { fruit_types_run(evs, k, depth, found, acc2) } else { Err(AbstractFileError::XmlParseError) }
                    },
                }
            } else if depth == 0 {
                Err(AbstractFileError::XmlWrongFileType)
            } else {
                fruit_types_run(evs, i + 1, depth + 1, found, acc)
            },
            _ => fruit_types_run(evs, i + 1, depth, found, acc),
        }
    }
}

/// A fruitTypes file read from its events.
pub open spec fn spec_fruit_types(evs: Seq<XmlEvent>) -> Result<Seq<(Seq<char>, FruitType)>, AbstractFileError> {
    fruit_types_run(evs, 0, 0, false, Seq::empty())
}

/// A `<fruitType>` read to its end tag stops after where it started.
pub proof fn lemma_fruit_type_run(evs: Seq<XmlEvent>, j: int, min: nat, max: nat)
    requires
        0 <= j <= evs.len(),
    ensures
        j <= fruit_type_run(evs, j, min, max).2 <= evs.len(),
    decreases evs.len() - j,
{
    if j < evs.len() {
        match evs[j] {
            XmlEvent::Start(t) => {
                let (a, b) = fruit_tag(t, min, max);
                lemma_fruit_type_run(evs, j + 1, a, b);
            },
            XmlEvent::Empty(t) => {
                let (a, b) = fruit_tag(t, min, max);
                lemma_fruit_type_run(evs, j + 1, a, b);
            },
            _ => { lemma_fruit_type_run(evs, j + 1, min, max); },
        }
    }
}

impl FruitTypes {
    /// Base game fruit types.
    pub fn from_base() -> (r: FruitTypes)
        ensures
            r@ == base_fruit_types(),
    {
        let mut v: Vec<(String, FruitType)> = Vec::new();
        v.push((crate::savegame::to_owned_str("wheat"), FruitType::singleton(8)));
        v.push((crate::savegame::to_owned_str("barley"), FruitType::singleton(7)));
        v.push((crate::savegame::to_owned_str("canola"), FruitType::singleton(9)));
        v.push((crate::savegame::to_owned_str("oat"), FruitType::singleton(5)));
        v.push((crate::savegame::to_owned_str("maize"), FruitType::singleton(7)));
        v.push((crate::savegame::to_owned_str("sunflower"), FruitType::singleton(8)));
        v.push((crate::savegame::to_owned_str("soybean"), FruitType::singleton(7)));
        v.push((crate::savegame::to_owned_str("potato"), FruitType::singleton(6)));
        v.push((crate::savegame::to_owned_str("sugarbeet"), FruitType::singleton(8)));
        v.push((crate::savegame::to_owned_str("sugarcane"), FruitType::singleton(8)));
        v.push((crate::savegame::to_owned_str("cotton"), FruitType::singleton(9)));
        v.push((crate::savegame::to_owned_str("sorghum"), FruitType::singleton(5)));
        v.push((crate::savegame::to_owned_str("grape"), FruitType { max_harvest: 11, min_harvest: 10 }));
        v.push((crate::savegame::to_owned_str("olive"), FruitType { max_harvest: 10, min_harvest: 9 }));
        v.push((crate::savegame::to_owned_str("poplar"), FruitType { max_harvest: 14, min_harvest: 14 }));
        v.push((crate::savegame::to_owned_str("grass"), FruitType { max_harvest: 4, min_harvest: 3 }));
        v.push((crate::savegame::to_owned_str("oilseedradish"), FruitType { max_harvest: 2, min_harvest: 2 }));
        let r = FruitTypes(StrMap { entries: v });
        assert(r@ =~= base_fruit_types());
        r
    }

    /// Read the children of a `<fruitType>` from event `j` on.
    fn read_fruit_type(evs: &Vec<XmlEvent>, j: usize) -> (r: (usize, usize, usize))
        requires
            j <= evs@.len(),
        ensures
            fruit_type_run(evs@, j as int, 1, 1) == (r.0 as nat, r.1 as nat, r.2 as int),
    {
        let mut min: usize = 1;
        let mut max: usize = 1;
        let mut k: usize = j;
        while k < evs.len()
            invariant
                j <= k <= evs@.len(),
                fruit_type_run(evs@, k as int, min as nat, max as nat) == fruit_type_run(evs@, j as int, 1, 1),
            decreases evs.len() - k,
        {
            match &evs[k] {
                XmlEvent::Start(t) | XmlEvent::Empty(t) => {
                    if tag_is(t, "harvest") {
                        if let Some(v) = get_attribute_usize(t, "minHarvestingGrowthState") { min = v; }
                        if let Some(v) = get_attribute_usize(t, "maxHarvestingGrowthState") { max = v; }
                    } else if tag_is(t, "preparing") {
                        if let Some(v) = get_attribute_usize(t, "minGrowthState") { min = v; }
                        if let Some(v) = get_attribute_usize(t, "maxGrowthState") { max = v; }
                    }
                },
                XmlEvent::End(n) => {
                    if crate::text::str_eq(n.as_str(), "fruitType") {
                        return (min, max, k + 1);
                    }
                },
                XmlEvent::Eof => { return (min, max, k); },
                _ => {},
            }
            k = k + 1;
        }
        (min, max, k)
    }

    /// Read a fruitTypes file from its XML events.
    ///
    /// # Errors
    /// [`AbstractFileError::XmlParseError`] where the reader fails,
    /// [`AbstractFileError::XmlWrongFileType`] where the root tag is not
    /// `<map>`, [`AbstractFileError::XmlUndeclared`] without an XML declaration.
    pub fn from_events(evs: &Vec<XmlEvent>) -> (r: Result<FruitTypes, AbstractFileError>)
        requires
            evs@.len() < i64::MAX,
        ensures
            match r {
                Ok(f) => spec_fruit_types(evs@) == Ok::<Seq<(Seq<char>, FruitType)>, AbstractFileError>(f@),
                Err(e) => spec_fruit_types(evs@) == Err::<Seq<(Seq<char>, FruitType)>, AbstractFileError>(e),
            },
    {
        let mut acc: StrMap<FruitType> = StrMap::new();
        let mut i: usize = 0;
        let mut depth: i64 = 0;
        let mut found = false;
        assert(acc@ =~= Seq::<(Seq<char>, FruitType)>::empty());
        while i < evs.len()
            invariant
                i <= evs@.len(),
                evs@.len() < i64::MAX,
                -(i as int) <= depth <= i,
                fruit_types_run(evs@, i as int, depth as int, found, acc@) == spec_fruit_types(evs@),
            decreases evs.len() - i,
        {
            let mut next: usize = i + 1;
            match &evs[i] {
                XmlEvent::Error => { return Err(AbstractFileError::XmlParseError); },
                XmlEvent::Decl => { found = true; },
                XmlEvent::Eof => {
                    return if found { Ok(FruitTypes(acc)) } else { Err(AbstractFileError::XmlUndeclared) };
                },
                XmlEvent::End(_) => { depth = depth - 1; },
                XmlEvent::Start(t) => {
                    if tag_is(t, "map") && depth == 0 {
                        depth = depth + 1;
                    } else if tag_is(t, "fruitType") && depth == 2 {
                        match get_attribute(t, "name") {
                            None => {},
                            Some(n) => {
                                proof { lemma_fruit_type_run(evs@, i + 1, 1, 1); }
                                let (min, max, k) = Self::read_fruit_type(evs, i + 1);
                                let c = to_chars(n.as_str());
                                let low = to_lower(c.as_slice());
                                let meadow = to_chars("meadow");
                                if !chars_eq(low.as_slice(), meadow.as_slice()) {
                                    acc.insert(from_chars(low.as_slice()), FruitType { max_harvest: max, min_harvest: min });
                                }
                                next = k;
                            },
                        }
                    } else if depth == 0 {
                        return Err(AbstractFileError::XmlWrongFileType);
                    } else {
                        depth = depth + 1;
                    }
                },
                _ => {},
            }
            i = next;
        }
        if found { Ok(FruitTypes(acc)) } else { Err(AbstractFileError::XmlUndeclared) }
    }

    /// Read a fruitTypes file from text.
    ///
    /// # Errors
    /// as [`FruitTypes::from_events`] for the text's events.
    pub fn from_string(xml_text: &str) -> (r: Result<FruitTypes, AbstractFileError>)
        ensures
            match r {
                Ok(f) => exists|evs: Seq<XmlEvent>| spec_fruit_types(evs) == Ok::<Seq<(Seq<char>, FruitType)>, AbstractFileError>(f@),
                Err(e) => e == AbstractFileError::XmlParseError
                    || exists|evs: Seq<XmlEvent>| spec_fruit_types(evs) == Err::<Seq<(Seq<char>, FruitType)>, AbstractFileError>(e),
            },
    {
        let evs = events_of(xml_text)?;
        FruitTypes::from_events(&evs)
    }

    /// Read a fruitTypes file of a mod.
    ///
    /// # Errors
    /// the error reading the file gives, or as [`FruitTypes::from_string`].
    pub fn from_abstract_file(mod_file: &AbstractFile, needle: &str) -> (r: Result<FruitTypes, AbstractFileError>)
        ensures
            spec_text(*mod_file, needle@) matches Err(e) ==> r == Err::<FruitTypes, AbstractFileError>(e),
            spec_text(*mod_file, needle@) is Ok ==> (match r {
                    Ok(f) => exists|evs: Seq<XmlEvent>| spec_fruit_types(evs) == Ok::<Seq<(Seq<char>, FruitType)>, AbstractFileError>(f@),
                    Err(e) => e == AbstractFileError::XmlParseError
                        || exists|evs: Seq<XmlEvent>| spec_fruit_types(evs) == Err::<Seq<(Seq<char>, FruitType)>, AbstractFileError>(e),
                }),
    {
        let text = mod_file.text(needle)?;
        FruitTypes::from_string(text.as_str())
    }
}

} // verus!
