//! The map reader's data: base game crops, fruit types and weather,
//! and the small conversions it made.
use vstd::prelude::*;
use crate::collections::{StrMap, map_insert};
use crate::text::{to_chars, str_eq, unsigned_or_zero, unsigned_or_zero_exec, sub_chars};
use crate::xml::{XmlEvent, XmlTag, tag_attr, get_attribute, tag_is};
use crate::savegame::to_owned_str;

pub mod structs;
pub mod basics;

use structs::{Crop, CropList, CropOutput, CropOutputView, CropSeason, CropTypeState, CropTypeStateBuilder};

verus! {

// MARK: periods

/// The periods (1 to 12) marked in an array, in increasing order.
pub open spec fn marked_periods(a: Seq<bool>, n: int) -> Seq<u8>
    decreases n,
{
    if n <= 0 {
        Seq::empty()
    } else {
        let before = marked_periods(a, n - 1);
        if a[n - 1] { before.push(n as u8) } else { before }
    }
}

/// Convert array of booleans to vector of indexes
pub fn bool_array_to_vector(input_array: [bool; 12]) -> (r: Vec<u8>)
    ensures
        r@ == marked_periods(input_array@, 12),
{
    let mut r: Vec<u8> = Vec::new();
    let mut i: usize = 0;
    while i < 12
        invariant
            i <= 12,
            input_array@.len() == 12,
            r@ == marked_periods(input_array@, i as int),
        decreases 12 - i,
    {
        if input_array[i] {
            r.push((i + 1) as u8);
        }
        i = i + 1;
    }
    r
}

// MARK: base game data

/// Crop types to ignore
pub open spec fn is_skip_crop_type(name: Seq<char>) -> bool {
    name == "meadow"@ || name == "unknown"@
}

/// A base game crop.
pub open spec fn bg_crop(name: &'static str, growth_time: u8, harvest_periods: [bool; 12], plant_periods: [bool; 12]) -> Crop {
    Crop { name, growth_time, harvest_periods, plant_periods }
}

/// Basegame supplied crop definitions, FS22
pub open spec fn base_crops() -> Seq<Crop> {
    let f = false;
    let t = true;
    seq![
        bg_crop("wheat", 8, [f, f, f, f, t, t, f, f, f, f, f, f], [f, f, f, f, f, f, t, t, f, f, f, f]),
        bg_crop("barley", 7, [f, f, f, t, t, f, f, f, f, f, f, f], [f, f, f, f, f, f, t, t, f, f, f, f]),
        bg_crop("canola", 9, [f, f, f, f, t, t, f, f, f, f, f, f], [f, f, f, f, f, t, t, f, f, f, f, f]),
        bg_crop("oat", 5, [f, f, f, f, t, t, f, f, f, f, f, f], [t, t, f, f, f, f, f, f, f, f, f, f]),
        bg_crop("maize", 7, [f, f, f, f, f, f, f, t, t, f, f, f], [f, t, t, f, f, f, f, f, f, f, f, f]),
        bg_crop("sunflower", 8, [f, f, f, f, f, f, f, t, t, f, f, f], [t, t, f, f, f, f, f, f, f, f, f, f]),
        bg_crop("soybean", 7, [f, f, f, f, f, f, f, t, t, f, f, f], [f, t, t, f, f, f, f, f, f, f, f, f]),
        bg_crop("potato", 6, [f, f, f, f, f, t, t, f, f, f, f, f], [t, t, f, f, f, f, f, f, f, f, f, f]),
        bg_crop("sugarbeet", 8, [f, f, f, f, f, f, f, t, t, f, f, f], [t, t, f, f, f, f, f, f, f, f, f, f]),
        bg_crop("sugarcane", 8, [f, f, f, f, f, f, f, t, t, f, f, f], [t, t, f, f, f, f, f, f, f, f, f, f]),
        bg_crop("cotton", 9, [f, f, f, f, f, f, f, t, t, f, f, f], [t, f, f, f, f, f, f, f, f, f, f, t]),
        bg_crop("sorghum", 5, [f, f, f, f, f, t, t, f, f, f, f, f], [f, t, t, f, f, f, f, f, f, f, f, f]),
        bg_crop("grape", 7, [f, f, f, f, f, f, t, t, f, f, f, f], [t, t, t, f, f, f, f, f, f, f, f, f]),
        bg_crop("olive", 7, [f, f, f, f, f, f, f, t, f, f, f, f], [t, t, t, t, f, f, f, f, f, f, f, f]),
        bg_crop("poplar", 14, [t, t, t, t, t, t, t, t, t, t, t, t], [t, t, t, t, t, t, f, f, f, f, f, f]),
        bg_crop("grass", 4, [t, t, t, t, t, t, t, t, t, t, t, t], [t, t, t, t, t, t, t, t, t, f, f, f]),
        bg_crop("oilseedradish", 2, [t, t, t, t, t, t, t, t, t, t, t, t], [t, t, t, t, t, t, t, t, f, f, f, f]),
    ]
}

/// Basegame supplied crop definitions, FS22
pub fn bg_crops() -> (r: Vec<Crop>)
    ensures
        r@ == base_crops(),
{
    let f = false;
    let t = true;
    let mut v: Vec<Crop> = Vec::new();
    v.push(Crop { name: "wheat", growth_time: 8, harvest_periods: [f, f, f, f, t, t, f, f, f, f, f, f], plant_periods: [f, f, f, f, f, f, t, t, f, f, f, f] });
    v.push(Crop { name: "barley", growth_time: 7, harvest_periods: [f, f, f, t, t, f, f, f, f, f, f, f], plant_periods: [f, f, f, f, f, f, t, t, f, f, f, f] });
    v.push(Crop { name: "canola", growth_time: 9, harvest_periods: [f, f, f, f, t, t, f, f, f, f, f, f], plant_periods: [f, f, f, f, f, t, t, f, f, f, f, f] });
    v.push(Crop { name: "oat", growth_time: 5, harvest_periods: [f, f, f, f, t, t, f, f, f, f, f, f], plant_periods: [t, t, f, f, f, f, f, f, f, f, f, f] });
    v.push(Crop { name: "maize", growth_time: 7, harvest_periods: [f, f, f, f, f, f, f, t, t, f, f, f], plant_periods: [f, t, t, f, f, f, f, f, f, f, f, f] });
    v.push(Crop { name: "sunflower", growth_time: 8, harvest_periods: [f, f, f, f, f, f, f, t, t, f, f, f], plant_periods: [t, t, f, f, f, f, f, f, f, f, f, f] });
    v.push(Crop { name: "soybean", growth_time: 7, harvest_periods: [f, f, f, f, f, f, f, t, t, f, f, f], plant_periods: [f, t, t, f, f, f, f, f, f, f, f, f] });
    v.push(Crop { name: "potato", growth_time: 6, harvest_periods: [f, f, f, f, f, t, t, f, f, f, f, f], plant_periods: [t, t, f, f, f, f, f, f, f, f, f, f] });
    v.push(Crop { name: "sugarbeet", growth_time: 8, harvest_periods: [f, f, f, f, f, f, f, t, t, f, f, f], plant_periods: [t, t, f, f, f, f, f, f, f, f, f, f] });
    v.push(Crop { name: "sugarcane", growth_time: 8, harvest_periods: [f, f, f, f, f, f, f, t, t, f, f, f], plant_periods: [t, t, f, f, f, f, f, f, f, f, f, f] });
    v.push(Crop { name: "cotton", growth_time: 9, harvest_periods: [f, f, f, f, f, f, f, t, t, f, f, f], plant_periods: [t, f, f, f, f, f, f, f, f, f, f, t] });
    v.push(Crop { name: "sorghum", growth_time: 5, harvest_periods: [f, f, f, f, f, t, t, f, f, f, f, f], plant_periods: [f, t, t, f, f, f, f, f, f, f, f, f] });
    v.push(Crop { name: "grape", growth_time: 7, harvest_periods: [f, f, f, f, f, f, t, t, f, f, f, f], plant_periods: [t, t, t, f, f, f, f, f, f, f, f, f] });
    v.push(Crop { name: "olive", growth_time: 7, harvest_periods: [f, f, f, f, f, f, f, t, f, f, f, f], plant_periods: [t, t, t, t, f, f, f, f, f, f, f, f] });
    v.push(Crop { name: "poplar", growth_time: 14, harvest_periods: [t, t, t, t, t, t, t, t, t, t, t, t], plant_periods: [t, t, t, t, t, t, f, f, f, f, f, f] });
    v.push(Crop { name: "grass", growth_time: 4, harvest_periods: [t, t, t, t, t, t, t, t, t, t, t, t], plant_periods: [t, t, t, t, t, t, t, t, t, f, f, f] });
    v.push(Crop { name: "oilseedradish", growth_time: 2, harvest_periods: [t, t, t, t, t, t, t, t, t, t, t, t], plant_periods: [t, t, t, t, t, t, t, t, f, f, f, f] });
    assert(v@ =~= base_crops());
    v
}

/// The crop list made of a list of static crops, in order.
pub open spec fn crop_list_of(crops: Seq<Crop>) -> Seq<(Seq<char>, CropOutputView)>
    decreases crops.len(),
{
    if crops.len() == 0 {
        Seq::empty()
    } else {
        let c = crops.last();
        map_insert(crop_list_of(crops.drop_last()), c.name@, CropOutputView {
            growth_time: c.growth_time,
            harvest_periods: marked_periods(c.harvest_periods@, 12),
            plant_periods: marked_periods(c.plant_periods@, 12),
        })
    }
}

/// Convert base game crop data to usable version
pub fn crops_from_base_game() -> (r: CropList)
    ensures
        r.spec_list() == crop_list_of(base_crops()),
        r.spec_order() == base_crops().map_values(|c: Crop| c.name@),
{
    let crops = bg_crops();
    let mut crop_list = CropList::new();
    let mut i: usize = 0;
    assert(crop_list.spec_order() =~= crops@.subrange(0, 0).map_values(|c: Crop| c.name@));
    while i < crops.len()
        invariant
            i <= crops@.len(),
            crops@ == base_crops(),
            crop_list.spec_list() == crop_list_of(crops@.subrange(0, i as int)),
            crop_list.spec_order() == crops@.subrange(0, i as int).map_values(|c: Crop| c.name@),
        decreases crops.len() - i,
    {
        let crop = crops[i];
        assert(crops@.subrange(0, i + 1).drop_last() =~= crops@.subrange(0, i as int));
        assert(crops@.subrange(0, i + 1).map_values(|c: Crop| c.name@)
            =~= crops@.subrange(0, i as int).map_values(|c: Crop| c.name@).push(crop.name@));
        crop_list.insert(crop.name.to_owned(), CropOutput {
            growth_time: crop.growth_time,
            harvest_periods: bool_array_to_vector(crop.harvest_periods),
            plant_periods: bool_array_to_vector(crop.plant_periods),
        });
        i = i + 1;
    }
    assert(crops@.subrange(0, crops@.len() as int) =~= crops@);
    crop_list
}

/// A base game crop type.
pub open spec fn bg_type(name: &'static str, max_harvest: u8, min_harvest: u8, states: u8) -> CropTypeState {
    CropTypeState { name, max_harvest, min_harvest, states }
}

/// Basegame supplied crop growth definitions, FS22
pub open spec fn base_crop_types() -> Seq<CropTypeState> {
    seq![
        bg_type("wheat", 8, 8, 8), bg_type("barley", 7, 7, 7), bg_type("canola", 9, 9, 9),
        bg_type("oat", 5, 5, 5), bg_type("maize", 7, 7, 7), bg_type("sunflower", 8, 8, 8),
        bg_type("soybean", 7, 7, 7), bg_type("potato", 6, 6, 6), bg_type("sugarbeet", 8, 8, 8),
        bg_type("sugarcane", 8, 8, 8), bg_type("cotton", 9, 9, 9), bg_type("sorghum", 5, 5, 5),
        bg_type("grape", 11, 10, 7), bg_type("olive", 10, 9, 7), bg_type("poplar", 14, 14, 14),
        bg_type("grass", 4, 3, 4), bg_type("oilseedradish", 2, 2, 2),
    ]
}

/// Basegame supplied crop growth definitions, FS22
pub fn bg_crop_types() -> (r: Vec<CropTypeState>)
    ensures
        r@ == base_crop_types(),
{
    let mut v: Vec<CropTypeState> = Vec::new();
    v.push(CropTypeState { name: "wheat", max_harvest: 8, min_harvest: 8, states: 8 });
    v.push(CropTypeState { name: "barley", max_harvest: 7, min_harvest: 7, states: 7 });
    v.push(CropTypeState { name: "canola", max_harvest: 9, min_harvest: 9, states: 9 });
    v.push(CropTypeState { name: "oat", max_harvest: 5, min_harvest: 5, states: 5 });
    v.push(CropTypeState { name: "maize", max_harvest: 7, min_harvest: 7, states: 7 });
    v.push(CropTypeState { name: "sunflower", max_harvest: 8, min_harvest: 8, states: 8 });
    v.push(CropTypeState { name: "soybean", max_harvest: 7, min_harvest: 7, states: 7 });
    v.push(CropTypeState { name: "potato", max_harvest: 6, min_harvest: 6, states: 6 });
    v.push(CropTypeState { name: "sugarbeet", max_harvest: 8, min_harvest: 8, states: 8 });
    v.push(CropTypeState { name: "sugarcane", max_harvest: 8, min_harvest: 8, states: 8 });
    v.push(CropTypeState { name: "cotton", max_harvest: 9, min_harvest: 9, states: 9 });
    v.push(CropTypeState { name: "sorghum", max_harvest: 5, min_harvest: 5, states: 5 });
    v.push(CropTypeState { name: "grape", max_harvest: 11, min_harvest: 10, states: 7 });
    v.push(CropTypeState { name: "olive", max_harvest: 10, min_harvest: 9, states: 7 });
    v.push(CropTypeState { name: "poplar", max_harvest: 14, min_harvest: 14, states: 14 });
    v.push(CropTypeState { name: "grass", max_harvest: 4, min_harvest: 3, states: 4 });
    v.push(CropTypeState { name: "oilseedradish", max_harvest: 2, min_harvest: 2, states: 2 });
    assert(v@ =~= base_crop_types());
    v
}

/// A crop type builder, as plain values: name, max and min harvest state, states.
pub open spec fn builder_view(b: CropTypeStateBuilder) -> (Seq<char>, u8, u8, u8) {
    (b.name@, b.max_harvest, b.min_harvest, b.states)
}

/// Convert base game fruit types to usable builders
pub fn fruits_from_base_game() -> (r: Vec<CropTypeStateBuilder>)
    ensures
        r@.map_values(|b: CropTypeStateBuilder| builder_view(b))
            == base_crop_types().map_values(|t: CropTypeState| (t.name@, t.max_harvest, t.min_harvest, t.states)),
{
    let types = bg_crop_types();
    let mut collector: Vec<CropTypeStateBuilder> = Vec::new();
    let mut i: usize = 0;
    while i < types.len()
        invariant
            i <= types@.len(),
            types@ == base_crop_types(),
            collector@.len() == i,
            collector@.map_values(|b: CropTypeStateBuilder| builder_view(b))
                == types@.subrange(0, i as int).map_values(|t: CropTypeState| (t.name@, t.max_harvest, t.min_harvest, t.states)),
        decreases types.len() - i,
    {
        let item = types[i];
        let ghost before = collector@;
        let b = CropTypeStateBuilder {
            name: item.name.to_owned(),
            max_harvest: item.max_harvest,
            min_harvest: item.min_harvest,
            states: item.states,
        };
        assert(builder_view(b) == (item.name@, item.max_harvest, item.min_harvest, item.states));
        let ghost gb = b;
        collector.push(b);
        assert(collector@ == before.push(gb));
        assert(types@[i as int] == item);
        assert forall|k: int| 0 <= k < i + 1 implies #[trigger] builder_view(collector@[k])
            == (types@[k].name@, types@[k].max_harvest, types@[k].min_harvest, types@[k].states) by {
            if k < i {
                assert(before.map_values(|b: CropTypeStateBuilder| builder_view(b))[k]
                    == types@.subrange(0, i as int).map_values(|t: CropTypeState| (t.name@, t.max_harvest, t.min_harvest, t.states))[k]);
                assert(before.map_values(|b: CropTypeStateBuilder| builder_view(b))[k] == builder_view(before[k]));
                assert(types@.subrange(0, i as int)[k] == types@[k]);
                assert(collector@[k] == before[k]);
            } else {
                assert(collector@[k] == gb);
            }
        }
        assert(collector@.map_values(|b: CropTypeStateBuilder| builder_view(b))
            =~= types@.subrange(0, i + 1).map_values(|t: CropTypeState| (t.name@, t.max_harvest, t.min_harvest, t.states)));
        i = i + 1;
    }
    assert(types@.subrange(0, types@.len() as int) =~= types@);
    collector
}

} // verus!

verus! {

// MARK: weather

/// Map environment - is southern hemisphere, weather by season: `min` and `max`
#[derive(Debug)]
pub struct MapEnvironment(pub bool, pub Option<StrMap<StrMap<i8>>>);

/// A base game season.
pub open spec fn bg_season(name: &'static str, min: i8, max: i8) -> CropSeason {
    CropSeason { name, min, max }
}

/// Base game weather of the US and French maps.
pub open spec fn seasons_us() -> Seq<CropSeason> {
    seq![bg_season("spring", 6, 18), bg_season("summer", 13, 34), bg_season("autumn", 5, 25), bg_season("winter", -11i8, 10)]
}

/// Base game weather of the alpine map.
pub open spec fn seasons_alpine() -> Seq<CropSeason> {
    seq![bg_season("spring", 5, 18), bg_season("summer", 10, 30), bg_season("autumn", 4, 22), bg_season("winter", -12i8, 8)]
}

/// Base game weather definitions, FS22, by map key.
pub open spec fn base_weather_of(key: Seq<char>) -> Option<Seq<CropSeason>> {
    if key == "mapUS"@ || key == "mapFR"@ {
        Some(seasons_us())
    } else if key == "mapAlpine"@ {
        Some(seasons_alpine())
    } else {
        None
    }
}

/// The weather map of a list of seasons: season name to `min` and `max`.
pub open spec fn season_map(seasons: Seq<CropSeason>) -> Seq<(Seq<char>, Seq<(Seq<char>, i8)>)>
    decreases seasons.len(),
{
    if seasons.len() == 0 {
        Seq::empty()
    } else {
        let s = seasons.last();
        map_insert(season_map(seasons.drop_last()), s.name@, seq![("min"@, s.min), ("max"@, s.max)])
    }
}

/// The weather map, as plain values.
pub open spec fn weather_view(w: Option<StrMap<StrMap<i8>>>) -> Option<Seq<(Seq<char>, Seq<(Seq<char>, i8)>)>> {
    match w {
        Some(m) => Some(m@),
        None => None,
    }
}

/// Base game seasons for a map key.
fn bg_seasons(key: &str) -> (r: Option<Vec<CropSeason>>)
    ensures
        match r {
            Some(v) => base_weather_of(key@) == Some(v@),
            None => base_weather_of(key@) is None,
        },
{
    if str_eq(key, "mapUS") || str_eq(key, "mapFR") {
        let mut v: Vec<CropSeason> = Vec::new();
        v.push(CropSeason { name: "spring", min: 6, max: 18 });
        v.push(CropSeason { name: "summer", min: 13, max: 34 });
        v.push(CropSeason { name: "autumn", min: 5, max: 25 });
        v.push(CropSeason { name: "winter", min: -11, max: 10 });
        assert(v@ =~= seasons_us());
        Some(v)
    } else if str_eq(key, "mapAlpine") {
        let mut v: Vec<CropSeason> = Vec::new();
        v.push(CropSeason { name: "spring", min: 5, max: 18 });
        v.push(CropSeason { name: "summer", min: 10, max: 30 });
        v.push(CropSeason { name: "autumn", min: 4, max: 22 });
        v.push(CropSeason { name: "winter", min: -12, max: 8 });
        assert(v@ =~= seasons_alpine());
        Some(v)
    } else {
        None
    }
}

/// Return basegame weather by key: northern hemisphere, and the seasons of
/// the key's map, `None` for an unknown key.
pub fn weather_from_base_game(base_game_key: &str) -> (r: MapEnvironment)
    ensures
        !r.0,
        weather_view(r.1) == match base_weather_of(base_game_key@) {
            Some(ss) => Some(season_map(ss)),
            None => None,
        },
{
    match bg_seasons(base_game_key) {
        None => MapEnvironment(false, None),
        Some(seasons) => {
            let mut weather_map: StrMap<StrMap<i8>> = StrMap::new();
            let mut i: usize = 0;
            assert(weather_map@ =~= season_map(seasons@.subrange(0, 0)));
            while i < seasons.len()
                invariant
                    i <= seasons@.len(),
                    weather_map@ == season_map(seasons@.subrange(0, i as int)),
                decreases seasons.len() - i,
            {
                let season = seasons[i];
                assert(seasons@.subrange(0, i + 1).drop_last() =~= seasons@.subrange(0, i as int));
                let mut entry: StrMap<i8> = StrMap::new();
                entry.entries.push((to_owned_str("min"), season.min));
                entry.entries.push((to_owned_str("max"), season.max));
                assert(entry@ =~= seq![("min"@, season.min), ("max"@, season.max)]);
                weather_map.insert(season.name.to_owned(), entry);
                i = i + 1;
            }
            assert(seasons@.subrange(0, seasons@.len() as int) =~= seasons@);
            assert(seasons@.len() > 0);
            MapEnvironment(false, Some(weather_map))
        },
    }
}

// MARK: numbers

/// Index of the last `c` in `s`, or -1.
pub open spec fn last_index(s: Seq<char>, c: char) -> int
    decreases s.len(),
{
    if s.len() == 0 {
        -1
    } else if s.last() == c {
        s.len() - 1
    } else {
        last_index(s.drop_last(), c)
    }
}

proof fn lemma_last_index(s: Seq<char>, c: char)
    ensures
        -1 <= last_index(s, c) < s.len(),
        last_index(s, c) >= 0 ==> s[last_index(s, c)] == c,
        forall|j: int| last_index(s, c) < j < s.len() ==> s[j] != c,
    decreases s.len(),
{
    if s.len() > 0 && s.last() != c {
        lemma_last_index(s.drop_last(), c);
        assert forall|j: int| last_index(s, c) < j < s.len() implies s[j] != c by {
            if j < s.len() - 1 { assert(s.drop_last()[j] == s[j]); }
        }
    }
}

/// The maximum of a range argument: the number after its last `-` (or the
/// whole text without one), as a `u8`; 0 where it does not parse.
pub open spec fn max_of_range(range: Option<Seq<char>>) -> nat {
    match range {
        None => 0,
        Some(v) => unsigned_or_zero(v.subrange(last_index(v, '-') + 1, v.len() as int), 255),
    }
}

/// Decode a range argument and get the maximum from it
pub fn decode_max_range(range: Option<&str>) -> (r: u8)
    ensures
        r as nat == max_of_range(match range { Some(v) => Some(v@), None => None }),
{
    match range {
        None => 0,
        Some(value) => {
            let c = to_chars(value);
            proof { lemma_last_index(c@, '-'); }
            let mut k: usize = c.len();
            while k > 0 && c[k - 1] != '-'
                invariant
                    k <= c@.len(),
                    forall|j: int| k <= j < c@.len() ==> c@[j] != '-',
                    -1 <= last_index(c@, '-') < c@.len(),
                    last_index(c@, '-') >= 0 ==> c@[last_index(c@, '-')] == '-',
                    forall|j: int| last_index(c@, '-') < j < c@.len() ==> c@[j] != '-',
                decreases k,
            {
                k = k - 1;
            }
            assert(k as int == last_index(c@, '-') + 1) by {
                if k > 0 {
                    if last_index(c@, '-') > k - 1 { assert(c@[k - 1] == '-'); }
                    if last_index(c@, '-') < k - 1 { assert(c@[last_index(c@, '-')] == '-'); }
                } else {
                    if last_index(c@, '-') >= 0 { assert(c@[last_index(c@, '-')] == '-'); }
                }
            }
            let piece = sub_chars(c.as_slice(), k, c.len());
            unsigned_or_zero_exec(piece.as_slice(), 255) as u8
        },
    }
}

/// Convert the read index into the real harvest index: one period on for
/// all crops but olives, two for olives, wrapping after 12.
pub fn get_real_index(index: u8, name: &str) -> (r: u8)
    requires
        index <= 253,
    ensures
        r == (((if name@ == "olive"@ { index + 2 } else { index + 1 }) - 1) % 12) + 1,
{
    let test_index = if str_eq(name, "olive") { index + 2 } else { index + 1 };
    ((test_index - 1) % 12) + 1
}

// MARK: map config

/// The first tag named `name` in document order.
pub open spec fn first_tag(evs: Seq<XmlEvent>, name: Seq<char>) -> Option<XmlTag>
    decreases evs.len(),
{
    if evs.len() == 0 {
        None
    } else {
        match evs[0] {
            XmlEvent::Start(t) => if t.name@ == name { Some(t) } else { first_tag(evs.drop_first(), name) },
            XmlEvent::Empty(t) => if t.name@ == name { Some(t) } else { first_tag(evs.drop_first(), name) },
            _ => first_tag(evs.drop_first(), name),
        }
    }
}

/// The tag of a start or self-closing tag event.
pub open spec fn event_tag(e: XmlEvent) -> Option<XmlTag> {
    match e {
        XmlEvent::Start(t) => Some(t),
        XmlEvent::Empty(t) => Some(t),
        _ => None,
    }
}

/// Find the first tag named `name`: the index of its event.
fn find_tag(evs: &Vec<XmlEvent>, name: &str) -> (r: Option<usize>)
    ensures
        match r {
            Some(i) => i < evs@.len() && event_tag(evs@[i as int]) == first_tag(evs@, name@) && first_tag(evs@, name@) is Some,
            None => first_tag(evs@, name@) is None,
        },
{
    let mut i: usize = 0;
    assert(evs@.skip(0) =~= evs@);
    while i < evs.len()
        invariant
            i <= evs@.len(),
            first_tag(evs@.skip(i as int), name@) == first_tag(evs@, name@),
        decreases evs.len() - i,
    {
        assert(evs@.skip(i as int).drop_first() =~= evs@.skip(i + 1));
        match &evs[i] {
            XmlEvent::Start(t) | XmlEvent::Empty(t) => {
                if tag_is(t, name) {
                    return Some(i);
                }
            },
            _ => {},
        }
        i = i + 1;
    }
    None
}

/// The tag of event `i`, where it is a start or self-closing tag.
fn tag_at(evs: &Vec<XmlEvent>, i: usize) -> (r: Option<&XmlTag>)
    requires
        i < evs@.len(),
    ensures
        match r {
            Some(t) => event_tag(evs@[i as int]) == Some(*t),
            None => event_tag(evs@[i as int]) is None,
        },
{
    match &evs[i] {
        XmlEvent::Start(t) | XmlEvent::Empty(t) => Some(t),
        _ => None,
    }
}

/// The first tag named `name`.
fn first_tag_of<'a>(evs: &'a Vec<XmlEvent>, name: &str) -> (r: Option<&'a XmlTag>)
    ensures
        match r {
            Some(t) => first_tag(evs@, name@) == Some(*t),
            None => first_tag(evs@, name@) is None,
        },
{
    match find_tag(evs, name) {
        Some(i) => tag_at(evs, i),
        None => None,
    }
}

/// A map config file entry naming a file of the mod (not `$data`).
pub open spec fn mod_entry(evs: Seq<XmlEvent>, tag: Seq<char>) -> Option<Seq<char>> {
    match first_tag(evs, tag) {
        Some(t) => match tag_attr(t, "filename"@) {
            Some(v) => if crate::text::is_prefix("$data"@, v) { None } else { Some(v) },
            None => None,
        },
        None => None,
    }
}

/// Get an included map support XML file
pub fn nullify_base_game_entry(evs: &Vec<XmlEvent>, tag: &str) -> (r: Option<String>)
    ensures
        crate::xml::opt_chars(r) == mod_entry(evs@, tag@),
{
    match first_tag_of(evs, tag) {
        Some(node) => match get_attribute(node, "filename") {
            Some(val) => {
                let c = to_chars(val.as_str());
                let p = to_chars("$data");
                if crate::text::starts_with(c.as_slice(), p.as_slice()) { None } else { Some(val) }
            },
            None => None,
        },
        None => None,
    }
}

/// The base game map a map's environment comes from: `None` where it is a
/// file of the mod, else the US, French or alpine map (the US map where the
/// name says none of them, or there is no name).
pub open spec fn base_game_key(evs: Seq<XmlEvent>) -> Option<Seq<char>> {
    match first_tag(evs, "environment"@) {
        Some(t) => match tag_attr(t, "filename"@) {
            Some(x) => if !crate::text::is_prefix("$data"@, x) {
                None
            } else if crate::text::contains_seq(x, "mapUS"@) {
                Some("mapUS"@)
            } else if crate::text::contains_seq(x, "mapFR"@) {
                Some("mapFR"@)
            } else if crate::text::contains_seq(x, "mapAlpine"@) {
                Some("mapAlpine"@)
            } else {
                Some("mapUS"@)
            },
            None => Some("mapUS"@),
        },
        None => Some("mapUS"@),
    }
}

/// Get a map base game entry key
pub fn get_base_game_entry_key(evs: &Vec<XmlEvent>) -> (r: Option<String>)
    ensures
        crate::xml::opt_chars(r) == base_game_key(evs@),
{
    if let Some(node) = first_tag_of(evs, "environment") {
        if let Some(filename) = get_attribute(node, "filename") {
            let c = to_chars(filename.as_str());
            let p = to_chars("$data");
            return if !crate::text::starts_with(c.as_slice(), p.as_slice()) {
                None
            } else if crate::text::str_contains(filename.as_str(), "mapUS") {
                Some(to_owned_str("mapUS"))
            } else if crate::text::str_contains(filename.as_str(), "mapFR") {
                Some(to_owned_str("mapFR"))
            } else if crate::text::str_contains(filename.as_str(), "mapAlpine") {
                Some(to_owned_str("mapAlpine"))
            } else {
                Some(to_owned_str("mapUS"))
            };
        }
    }
    Some(to_owned_str("mapUS"))
}

} // verus!
