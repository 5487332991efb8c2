//! Reading a map's basics from its config file and the files it names:
//! the weather, the crops with their planting and harvest periods, and the
//! overview image file. Documents are walked as XML event lists.
use vstd::prelude::*;
use crate::collections::{StrMap, map_insert};
use crate::files::{AbstractFile, spec_text};
use crate::savegame::to_owned_str;
use crate::text::{to_chars, str_eq, unsigned_text_value, signed_text_value, parse_unsigned, parse_signed};
use crate::xml::{XmlEvent, XmlTag, tag_attr, get_attribute, events_of, ends_with_eof};
use super::{event_tag, is_skip_crop_type, builder_view, base_crop_types, fruits_from_base_game,
    MapEnvironment, weather_from_base_game, weather_view, base_weather_of, season_map, max_of_range,
    decode_max_range, get_real_index, mod_entry, base_game_key, nullify_base_game_entry, get_base_game_entry_key,
    crops_from_base_game, crop_list_of, base_crops};
use super::structs::Crop;
use crate::shared::{normalize_image_file, spec_normalize_image_file};
use crate::xml::opt_chars;
use super::structs::{CropList, CropOutput, CropOutputView, CropTypeState, CropTypeStateBuilder};

verus! {

// MARK: elements

/// Where the content of an element that starts at `k` ends: the index of
/// the end tag that closes it (`depth` counts the tags opened since), or
/// where the document stops (its end, a reader error, the end of the list).
pub open spec fn close_at(evs: Seq<XmlEvent>, k: int, depth: nat) -> int
    decreases evs.len() - k,
{
    if k < 0 || k >= evs.len() {
        evs.len() as int
    } else {
        match evs[k] {
            XmlEvent::Start(_) => close_at(evs, k + 1, depth + 1),
            XmlEvent::End(_) => if depth == 0 { k } else { close_at(evs, k + 1, (depth - 1) as nat) },
            XmlEvent::Eof => k,
            XmlEvent::Error => k,
            _ => close_at(evs, k + 1, depth),
        }
    }
}

/// The end (exclusive) of the content of the element at `i`: the index of
/// its end tag for a start tag; a self-closing tag has no content.
pub open spec fn content_end(evs: Seq<XmlEvent>, i: int) -> int {
    match evs[i] {
        XmlEvent::Start(_) => close_at(evs, i + 1, 0),
        _ => i + 1,
    }
}

/// The index after the element (or other event) at `k`, within the list.
pub open spec fn after_elem(evs: Seq<XmlEvent>, k: int) -> int {
    let n = match evs[k] {
        XmlEvent::Start(_) => close_at(evs, k + 1, 0) + 1,
        _ => k + 1,
    };
    if n <= k { k + 1 } else if n > evs.len() { evs.len() as int } else { n }
}

/// Is the event a start or self-closing tag named `n`?
pub open spec fn elem_named(e: XmlEvent, n: Seq<char>) -> bool {
    match e {
        XmlEvent::Start(t) => t.name@ == n,
        XmlEvent::Empty(t) => t.name@ == n,
        _ => false,
    }
}

/// The first element named `n` among the events `k..end` taken element by
/// element (children, where `k..end` is an element's content).
pub open spec fn first_child_from(evs: Seq<XmlEvent>, k: int, end: int, n: Seq<char>) -> Option<int>
    decreases end - k,
{
    if k < 0 || k >= end || k >= evs.len() {
        None
    } else if elem_named(evs[k], n) {
        Some(k)
    } else {
        let nk = after_elem(evs, k);
        if nk >= end { None } else { first_child_from(evs, nk, end, n) }
    }
}

/// The first element named `n` from event `k` on, at any depth.
pub open spec fn first_named_from(evs: Seq<XmlEvent>, k: int, n: Seq<char>) -> Option<int>
    decreases evs.len() - k,
{
    if k < 0 || k >= evs.len() {
        None
    } else if elem_named(evs[k], n) {
        Some(k)
    } else {
        first_named_from(evs, k + 1, n)
    }
}

/// A child found is an element of that name.
pub proof fn lemma_child_named(evs: Seq<XmlEvent>, k: int, end: int, n: Seq<char>)
    ensures
        first_child_from(evs, k, end, n) matches Some(c) ==> 0 <= c < evs.len() && elem_named(evs[c], n),
    decreases end - k,
{
    if 0 <= k < end && k < evs.len() && !elem_named(evs[k], n) {
        let nk = after_elem(evs, k);
        if nk < end {
            lemma_child_named(evs, nk, end, n);
        }
    }
}

/// The document holds no reader error.
pub open spec fn no_error(evs: Seq<XmlEvent>) -> bool {
    forall|i: int| 0 <= i < evs.len() ==> !(#[trigger] evs[i] is Error)
}

/// `close_at` lies between where it starts and the end of the list.
pub proof fn lemma_close_bounds(evs: Seq<XmlEvent>, k: int, depth: nat)
    requires
        0 <= k <= evs.len(),
    ensures
        k <= close_at(evs, k, depth) <= evs.len(),
    decreases evs.len() - k,
{
    if k < evs.len() {
        match evs[k] {
            XmlEvent::Start(_) => lemma_close_bounds(evs, k + 1, depth + 1),
            XmlEvent::End(_) => if depth != 0 { lemma_close_bounds(evs, k + 1, (depth - 1) as nat) },
            XmlEvent::Eof => {},
            XmlEvent::Error => {},
            _ => lemma_close_bounds(evs, k + 1, depth),
        }
    }
}

/// Find where the content of an element that starts at `k` ends.
fn close_of(evs: &Vec<XmlEvent>, k: usize) -> (r: usize)
    requires
        k <= evs@.len(),
    ensures
        r as int == close_at(evs@, k as int, 0),
        k <= r <= evs@.len(),
{
    proof { lemma_close_bounds(evs@, k as int, 0); }
    let mut j: usize = k;
    let mut depth: usize = 0;
    while j < evs.len()
        invariant
            k <= j <= evs@.len(),
            depth <= j - k,
            close_at(evs@, j as int, depth as nat) == close_at(evs@, k as int, 0),
        decreases evs.len() - j,
    {
        match &evs[j] {
            XmlEvent::Start(_) => {
                depth = depth + 1;
            },
            XmlEvent::End(_) => {
                if depth == 0 {
                    return j;
                }
                depth = depth - 1;
            },
            XmlEvent::Eof => {
                return j;
            },
            XmlEvent::Error => {
                return j;
            },
            _ => {},
        }
        j = j + 1;
    }
    j
}

/// The end of the content of the element at `i`.
fn content_end_of(evs: &Vec<XmlEvent>, i: usize) -> (r: usize)
    requires
        i < evs.len(),
    ensures
        r as int == content_end(evs@, i as int),
        i < r <= evs@.len(),
{
    match &evs[i] {
        XmlEvent::Start(_) => {
            let c = close_of(evs, i + 1);
            c
        },
        _ => i + 1,
    }
}

/// The index after the element at `k`.
fn after_of(evs: &Vec<XmlEvent>, k: usize) -> (r: usize)
    requires
        k < evs.len(),
    ensures
        r as int == after_elem(evs@, k as int),
        k < r <= evs@.len(),
{
    match &evs[k] {
        XmlEvent::Start(_) => {
            let c = close_of(evs, k + 1);
            if c < evs.len() { c + 1 } else { evs.len() }
        },
        _ => k + 1,
    }
}

/// Is the event at `k` an element named `n`? Its tag where it is.
fn named_at<'a>(evs: &'a Vec<XmlEvent>, k: usize, n: &str) -> (r: Option<&'a XmlTag>)
    requires
        k < evs@.len(),
    ensures
        match r {
            Some(t) => elem_named(evs@[k as int], n@) && event_tag(evs@[k as int]) == Some(*t),
            None => !elem_named(evs@[k as int], n@),
        },
{
    match &evs[k] {
        XmlEvent::Start(t) | XmlEvent::Empty(t) => {
            if str_eq(t.name.as_str(), n) { Some(t) } else { None }
        },
        _ => None,
    }
}

/// Find the first child element named `n` among the events `k..end`.
fn first_child_of(evs: &Vec<XmlEvent>, k: usize, end: usize, n: &str) -> (r: Option<usize>)
    ensures
        match r {
            Some(c) => first_child_from(evs@, k as int, end as int, n@) == Some(c as int) && c < evs@.len(),
            None => first_child_from(evs@, k as int, end as int, n@) is None,
        },
{
    let mut j: usize = k;
    while j < end && j < evs.len()
        invariant
            k <= j,
            first_child_from(evs@, j as int, end as int, n@) == first_child_from(evs@, k as int, end as int, n@),
        decreases end - j,
    {
        if named_at(evs, j, n).is_some() {
            return Some(j);
        }
        let nj = after_of(evs, j);
        if nj >= end {
            return None;
        }
        j = nj;
    }
    None
}

/// Find the first element named `n` from event `k` on.
fn first_named_of(evs: &Vec<XmlEvent>, k: usize, n: &str) -> (r: Option<usize>)
    ensures
        match r {
            Some(c) => first_named_from(evs@, k as int, n@) == Some(c as int) && c < evs@.len(),
            None => first_named_from(evs@, k as int, n@) is None,
        },
{
    let mut j: usize = k;
    while j < evs.len()
        invariant
            k <= j,
            first_named_from(evs@, j as int, n@) == first_named_from(evs@, k as int, n@),
        decreases evs.len() - j,
    {
        if named_at(evs, j, n).is_some() {
            return Some(j);
        }
        j = j + 1;
    }
    None
}

/// Does the document hold a reader error?
fn has_error(evs: &Vec<XmlEvent>) -> (r: bool)
    ensures
        r == !no_error(evs@),
{
    let mut j: usize = 0;
    while j < evs.len()
        invariant
            j <= evs@.len(),
            forall|i: int| 0 <= i < j ==> !(#[trigger] evs@[i] is Error),
        decreases evs.len() - j,
    {
        if matches!(evs[j], XmlEvent::Error) {
            assert(evs@[j as int] is Error);
            return true;
        }
        j = j + 1;
    }
    false
}

// MARK: numbers and names

/// std's `str::parse::<u8>` of an attribute, or `default` where the
/// attribute is missing or does not parse.
pub open spec fn u8_or(v: Option<Seq<char>>, default: u8) -> u8 {
    match v {
        Some(t) => match unsigned_text_value(t) {
            Some(n) => if n <= 255 { n as u8 } else { default },
            None => default,
        },
        None => default,
    }
}

/// Parse an attribute as a `u8`, `default` where that fails.
fn attr_u8_or(tag: &XmlTag, name: &str, default: u8) -> (r: u8)
    ensures
        r == u8_or(tag_attr(*tag, name@), default),
{
    match get_attribute(tag, name) {
        Some(v) => {
            let c = to_chars(v.as_str());
            match parse_unsigned(c.as_slice(), 255) {
                Some(n) => n as u8,
                None => default,
            }
        },
        None => default,
    }
}

/// What std's `str::to_lowercase` gives for a text.
pub uninterp spec fn str_lowercase(s: Seq<char>) -> Seq<char>;

/// std's `str::to_lowercase` (Unicode lower case). The result is a function
/// of the text; nothing more is stated of it.
#[verifier::external_body]
fn to_lowercase(s: &str) -> (r: String)
    ensures
        r@ == str_lowercase(s@),
{
    s.to_lowercase()
}

/// The name of a crop element: its `name` attribute (`unknown` where it
/// has none), lower-cased.
pub open spec fn crop_name(t: XmlTag) -> Seq<char> {
    str_lowercase(match tag_attr(t, "name"@) { Some(v) => v, None => "unknown"@ })
}

/// Read the name of a crop element.
fn crop_name_of(t: &XmlTag) -> (r: String)
    ensures
        r@ == crop_name(*t),
{
    match get_attribute(t, "name") {
        Some(v) => to_lowercase(v.as_str()),
        None => to_lowercase("unknown"),
    }
}

// MARK: fruit types

/// An attribute of the first child element `tag` of the element at `i`,
/// as a `u8`; `default` where there is no such child or attribute, or it
/// does not parse.
pub open spec fn crop_attribute(evs: Seq<XmlEvent>, i: int, tag: Seq<char>, attr: Seq<char>, default: u8) -> u8 {
    match first_child_from(evs, i + 1, content_end(evs, i), tag) {
        Some(c) => match event_tag(evs[c]) {
            Some(t) => u8_or(tag_attr(t, attr), default),
            None => default,
        },
        None => default,
    }
}

/// Get a crop attribute from a tag
pub fn get_crop_attribute(evs: &Vec<XmlEvent>, i: usize, tag_name: &str, attr_name: &str, default: u8) -> (r: u8)
    requires
        i < evs@.len(),
    ensures
        r == crop_attribute(evs@, i as int, tag_name@, attr_name@, default),
{
    let end = content_end_of(evs, i);
    match first_child_of(evs, i + 1, end, tag_name) {
        Some(c) => {
            proof { lemma_child_named(evs@, i + 1, end as int, tag_name@); }
            match named_at(evs, c, tag_name) {
                Some(t) => attr_u8_or(t, attr_name, default),
                None => default,
            }
        },
        None => default,
    }
}

/// The crop type read from the `fruitType` element at `i`: name, last and
/// first harvest state, number of growth states (`preparing` states, where
/// given, replace the harvest states).
pub open spec fn builder_at(evs: Seq<XmlEvent>, i: int) -> (Seq<char>, u8, u8, u8) {
    let max0 = crop_attribute(evs, i, "harvest"@, "maxHarvestingGrowthState"@, 20);
    let min0 = crop_attribute(evs, i, "harvest"@, "minHarvestingGrowthState"@, 20);
    let states = crop_attribute(evs, i, "growth"@, "numGrowthStates"@, 20);
    let min = crop_attribute(evs, i, "preparing"@, "minGrowthState"@, min0);
    let max = crop_attribute(evs, i, "preparing"@, "maxGrowthState"@, max0);
    (crop_name(event_tag(evs[i]).unwrap()), max, min, states)
}

/// The crop types of the `fruitType` elements among the first `k` events,
/// in document order, leaving out the crop types to ignore.
pub open spec fn builders_upto(evs: Seq<XmlEvent>, k: int) -> Seq<(Seq<char>, u8, u8, u8)>
    decreases k,
{
    if k <= 0 {
        Seq::empty()
    } else {
        let before = builders_upto(evs, k - 1);
        if elem_named(evs[k - 1], "fruitType"@) && !is_skip_crop_type(builder_at(evs, k - 1).0) {
            before.push(builder_at(evs, k - 1))
        } else {
            before
        }
    }
}

/// Read the crop types of a fruit types document.
pub fn crop_builders_from_events(evs: &Vec<XmlEvent>) -> (r: Vec<CropTypeStateBuilder>)
    ensures
        r@.map_values(|b: CropTypeStateBuilder| builder_view(b)) == builders_upto(evs@, evs@.len() as int),
{
    let mut out: Vec<CropTypeStateBuilder> = Vec::new();
    let mut k: usize = 0;
    assert(out@.map_values(|b: CropTypeStateBuilder| builder_view(b)) =~= builders_upto(evs@, 0));
    while k < evs.len()
        invariant
            k <= evs@.len(),
            out@.map_values(|b: CropTypeStateBuilder| builder_view(b)) == builders_upto(evs@, k as int),
        decreases evs.len() - k,
    {
        let ghost before = out@;
        if let Some(t) = named_at(evs, k, "fruitType") {
            let name = crop_name_of(t);
            let max0 = get_crop_attribute(evs, k, "harvest", "maxHarvestingGrowthState", 20);
            let min0 = get_crop_attribute(evs, k, "harvest", "minHarvestingGrowthState", 20);
            let states = get_crop_attribute(evs, k, "growth", "numGrowthStates", 20);
            let min = get_crop_attribute(evs, k, "preparing", "minGrowthState", min0);
            let max = get_crop_attribute(evs, k, "preparing", "maxGrowthState", max0);
            if !(str_eq(name.as_str(), "meadow") || str_eq(name.as_str(), "unknown")) {
                out.push(CropTypeStateBuilder { max_harvest: max, min_harvest: min, name, states });
                assert(out@.map_values(|b: CropTypeStateBuilder| builder_view(b))
                    =~= before.map_values(|b: CropTypeStateBuilder| builder_view(b)).push(builder_at(evs@, k as int)));
            }
        }
        k = k + 1;
    }
    out
}

// MARK: files

/// The events of a file of the mod, where it reads, the reader gets through
/// it, and it holds no reader error.
fn file_events(file: &AbstractFile, name: &str) -> (r: Option<Vec<XmlEvent>>)
    ensures
        spec_text(*file, name@) is Err ==> r is None,
        r matches Some(evs) ==> ends_with_eof(evs@) && no_error(evs@),
{
    match file.text(name) {
        Ok(t) => match events_of(t.as_str()) {
            Ok(evs) => if has_error(&evs) { None } else { Some(evs) },
            Err(_) => None,
        },
        Err(_) => None,
    }
}

/// The base game crop types, as plain values.
pub open spec fn base_builders() -> Seq<(Seq<char>, u8, u8, u8)> {
    base_crop_types().map_values(|t: CropTypeState| (t.name@, t.max_harvest, t.min_harvest, t.states))
}

/// Build the crop builder struct from crop constraints: the crop types of
/// the map's fruit types file, or the base game's where the map names none
/// or it does not read.
pub fn populate_crop_builder(file: &AbstractFile, fruits: Option<String>) -> (r: Vec<CropTypeStateBuilder>)
    ensures
        ({
            let view = r@.map_values(|b: CropTypeStateBuilder| builder_view(b));
            match fruits {
                None => view == base_builders(),
                Some(f) => if spec_text(*file, f@) is Err {
                    view == base_builders()
                } else {
                    view == base_builders() || exists|evs: Seq<XmlEvent>|
                        ends_with_eof(evs) && no_error(evs) && view == #[trigger] builders_upto(evs, evs.len() as int)
                },
            }
        }),
{
    if let Some(file_name) = fruits {
        if let Some(evs) = file_events(file, file_name.as_str()) {
            return crop_builders_from_events(&evs);
        }
    }
    fruits_from_base_game()
}

// MARK: weather

/// std's `str::parse::<i8>` of a text, or `default` where it does not parse.
pub open spec fn i8_or(v: Option<Seq<char>>, default: i8) -> i8 {
    match v {
        Some(t) => match signed_text_value(t) {
            Some(x) => if -128 <= x <= 127 { x as i8 } else { default },
            None => default,
        },
        None => default,
    }
}

/// Parse an attribute as an `i8`, `default` where that fails.
fn attr_i8_or(tag: &XmlTag, name: &str, default: i8) -> (r: i8)
    ensures
        r == i8_or(tag_attr(*tag, name@), default),
{
    match get_attribute(tag, name) {
        Some(v) => {
            let c = to_chars(v.as_str());
            match parse_signed(c.as_slice(), 128) {
                Some(x) => if x <= 127 { x as i8 } else { default },
                None => default,
            }
        },
        None => default,
    }
}

/// The lower of two temperatures.
pub open spec fn min_i8(a: i8, b: i8) -> i8 {
    if a <= b { a } else { b }
}

/// The higher of two temperatures.
pub open spec fn max_i8(a: i8, b: i8) -> i8 {
    if a >= b { a } else { b }
}

/// A `variation` element with both temperatures.
pub open spec fn is_variation(t: XmlTag) -> bool {
    t.name@ == "variation"@ && tag_attr(t, "minTemperature"@) is Some && tag_attr(t, "maxTemperature"@) is Some
}

/// The lowest minimum and highest maximum temperature of the variations
/// among the events `k..end` (at any depth), from `min` and `max` on; a
/// temperature that does not parse counts as 127 (minimum) or -127 (maximum).
pub open spec fn season_temps(evs: Seq<XmlEvent>, k: int, end: int, min: i8, max: i8) -> (i8, i8)
    decreases end - k,
{
    if k < 0 || k >= end || k >= evs.len() {
        (min, max)
    } else {
        let (mn, mx) = match event_tag(evs[k]) {
            Some(t) => if is_variation(t) {
                (min_i8(min, i8_or(tag_attr(t, "minTemperature"@), 127)), max_i8(max, i8_or(tag_attr(t, "maxTemperature"@), -127i8)))
            } else {
                (min, max)
            },
            None => (min, max),
        };
        season_temps(evs, k + 1, end, mn, mx)
    }
}

/// A `season` element with a name.
pub open spec fn is_season(t: XmlTag) -> bool {
    t.name@ == "season"@ && tag_attr(t, "name"@) is Some
}

/// The weather of the named seasons from event `k` on, added to `acc`:
/// season name to its lowest `min` and highest `max` temperature.
pub open spec fn weather_run(evs: Seq<XmlEvent>, k: int, acc: Seq<(Seq<char>, Seq<(Seq<char>, i8)>)>)
    -> Seq<(Seq<char>, Seq<(Seq<char>, i8)>)>
    decreases evs.len() - k,
{
    if k < 0 || k >= evs.len() {
        acc
    } else {
        let next = match event_tag(evs[k]) {
            Some(t) => if is_season(t) {
                let (mn, mx) = season_temps(evs, k + 1, content_end(evs, k), 127, -127i8);
                map_insert(acc, tag_attr(t, "name"@).unwrap(), seq![("min"@, mn), ("max"@, mx)])
            } else {
                acc
            },
            None => acc,
        };
        weather_run(evs, k + 1, next)
    }
}

/// The text of the first `latitude` element, where it has one.
pub open spec fn latitude_of(evs: Seq<XmlEvent>) -> Option<Seq<char>> {
    match first_named_from(evs, 0, "latitude"@) {
        Some(i) => if evs[i] is Start && i + 1 < evs.len() {
            match evs[i + 1] {
                XmlEvent::Text(_, Some(u)) => Some(u@),
                _ => None,
            }
        } else {
            None
        },
        None => None,
    }
}

/// Find the lowest and highest temperature of a season's variations.
fn season_temps_of(evs: &Vec<XmlEvent>, k: usize, end: usize) -> (r: (i8, i8))
    ensures
        r == season_temps(evs@, k as int, end as int, 127i8, -127i8),
{
    let mut min: i8 = 127;
    let mut max: i8 = -127;
    let mut j: usize = k;
    while j < end && j < evs.len()
        invariant
            k <= j,
            season_temps(evs@, j as int, end as int, min, max) == season_temps(evs@, k as int, end as int, 127i8, -127i8),
        decreases end - j,
    {
        match &evs[j] {
            XmlEvent::Start(t) | XmlEvent::Empty(t) => {
                if str_eq(t.name.as_str(), "variation") && get_attribute(t, "minTemperature").is_some()
                    && get_attribute(t, "maxTemperature").is_some() {
                    let lo = attr_i8_or(t, "minTemperature", 127);
                    let hi = attr_i8_or(t, "maxTemperature", -127);
                    if lo < min { min = lo; }
                    if hi > max { max = hi; }
                }
            },
            _ => {},
        }
        j = j + 1;
    }
    (min, max)
}

/// Read the weather of an environment document.
pub fn weather_from_events(evs: &Vec<XmlEvent>) -> (r: StrMap<StrMap<i8>>)
    ensures
        r@ == weather_run(evs@, 0, Seq::empty()),
{
    let mut weather_map: StrMap<StrMap<i8>> = StrMap::new();
    let mut k: usize = 0;
    assert(weather_map@ =~= Seq::<(Seq<char>, Seq<(Seq<char>, i8)>)>::empty());
    while k < evs.len()
        invariant
            k <= evs@.len(),
            weather_run(evs@, k as int, weather_map@) == weather_run(evs@, 0, Seq::empty()),
        decreases evs.len() - k,
    {
        match &evs[k] {
            XmlEvent::Start(t) | XmlEvent::Empty(t) => {
                if str_eq(t.name.as_str(), "season") {
                    if let Some(name) = get_attribute(t, "name") {
                        let end = content_end_of(evs, k);
                        let (lo, hi) = season_temps_of(evs, k + 1, end);
                        let mut entry: StrMap<i8> = StrMap::new();
                        entry.entries.push((to_owned_str("min"), lo));
                        entry.entries.push((to_owned_str("max"), hi));
                        assert(entry@ =~= seq![("min"@, lo), ("max"@, hi)]);
                        weather_map.insert(name, entry);
                    }
                }
            },
            _ => {},
        }
        k = k + 1;
    }
    weather_map
}

/// Read the latitude text of an environment document.
pub fn latitude_from_events(evs: &Vec<XmlEvent>) -> (r: Option<String>)
    ensures
        crate::xml::opt_chars(r) == latitude_of(evs@),
{
    match first_named_of(evs, 0, "latitude") {
        Some(i) => {
            if matches!(evs[i], XmlEvent::Start(_)) && i < evs.len() - 1 {
                match &evs[i + 1] {
                    XmlEvent::Text(_, Some(u)) => Some(u.clone()),
                    _ => None,
                }
            } else {
                None
            }
        },
        None => None,
    }
}

/// The weather of a map: the base game's for a base game key, else that of
/// the map's own environment file, else the US map's. With it, the latitude
/// text of the map's own environment, from which the caller tells the
/// southern hemisphere (the hemisphere flag is left unset here).
pub fn populate_weather(file: &AbstractFile, env_base: Option<String>, env_in: Option<String>) -> (r: (MapEnvironment, Option<String>))
    ensures
        !r.0.0,
        match env_base {
            Some(key) => weather_view(r.0.1) == (match base_weather_of(key@) { Some(ss) => Some(season_map(ss)), None => None })
                && r.1 is None,
            None => {
                let us = Some(season_map(base_weather_of("mapUS"@).unwrap()));
                match env_in {
                    None => weather_view(r.0.1) == us && r.1 is None,
                    Some(f) => if spec_text(*file, f@) is Err {
                        weather_view(r.0.1) == us && r.1 is None
                    } else {
                        (weather_view(r.0.1) == us && r.1 is None) || exists|evs: Seq<XmlEvent>|
                            ends_with_eof(evs) && no_error(evs)
                            && weather_view(r.0.1) == Some(#[trigger] weather_run(evs, 0, Seq::empty()))
                            && crate::xml::opt_chars(r.1) == latitude_of(evs)
                    },
                }
            },
        },
{
    proof { reveal_strlit("mapUS"); }
    if let Some(base_game_key) = env_base {
        return (weather_from_base_game(base_game_key.as_str()), None);
    } else if let Some(file_name) = env_in {
        if let Some(evs) = file_events(file, file_name.as_str()) {
            let weather_map = weather_from_events(&evs);
            let latitude = latitude_from_events(&evs);
            return (MapEnvironment(false, Some(weather_map)), latitude);
        }
    }
    (weather_from_base_game("mapUS"), None)
}

// MARK: crop growth

/// The harvest period of a period index read from a growth file: one
/// period on, two for olives, wrapping after 12.
pub open spec fn real_index(idx: u8, name: Seq<char>) -> u8 {
    ((((if name == "olive"@ { idx + 2 } else { idx + 1 }) - 1) % 12) + 1) as u8
}

/// The harvest periods a period adds: `harvest_at` once for each harvest state
/// from `lo` to `hi` that the crop may be in.
pub open spec fn hits(st: Seq<u8>, lo: int, hi: int, harvest_at: u8) -> Seq<u8>
    decreases hi - lo + 1,
{
    if hi < lo {
        Seq::empty()
    } else {
        let before = hits(st, lo, hi - 1, harvest_at);
        if st.contains(hi as u8) { before.push(harvest_at) } else { before }
    }
}

/// One `update` of a period: a `set` below its `range` is a die back (or
/// regrowth) to the set state; otherwise, until a die back, an `add` makes
/// the top of the range plus the addition possible (wrapping as a `u8`).
pub open spec fn update_step(t: XmlTag, die: bool, st: Seq<u8>) -> (Seq<u8>, bool) {
    let (st1, die1) = if tag_attr(t, "set"@) is Some {
        let range = max_of_range(tag_attr(t, "range"@));
        let new_value = max_of_range(tag_attr(t, "set"@));
        if range > new_value { (st.push(new_value as u8), true) } else { (st, die) }
    } else {
        (st, die)
    };
    if !die1 && tag_attr(t, "add"@) is Some {
        let m = max_of_range(tag_attr(t, "range"@)) + u8_or(tag_attr(t, "add"@), 0);
        (st1.push((m % 256) as u8), die1)
    } else {
        (st1, die1)
    }
}

/// The states a crop may be in after the `update` children among `k..end`.
pub open spec fn update_run(evs: Seq<XmlEvent>, k: int, end: int, die: bool, st: Seq<u8>) -> Seq<u8>
    decreases end - k,
{
    if k < 0 || k >= end || k >= evs.len() {
        st
    } else {
        let (st2, die2) = if elem_named(evs[k], "update"@) { update_step(event_tag(evs[k]).unwrap(), die, st) } else { (st, die) };
        let nk = after_elem(evs, k);
        if nk >= end { st2 } else { update_run(evs, nk, end, die2, st2) }
    }
}

/// A crop's planting periods, harvest periods and possible states, so far.
pub struct GrowthAcc {
    /// planting periods
    pub plant: Seq<u8>,
    /// harvest periods
    pub harvest: Seq<u8>,
    /// states the crop may be in
    pub states: Seq<u8>,
}

/// A `period` element with an index.
pub open spec fn is_period(t: XmlTag) -> bool {
    t.name@ == "period"@ && tag_attr(t, "index"@) is Some
}

/// One period of a crop (`min`, `max`: its harvest states). Index 0, or an
/// index that does not parse, is skipped, as is an index above 253. A
/// period without updates keeps the possible states; one with updates
/// starts them afresh.
pub open spec fn period_step(evs: Seq<XmlEvent>, p: int, name: Seq<char>, min: u8, max: u8, acc: GrowthAcc) -> GrowthAcc {
    let t = event_tag(evs[p]).unwrap();
    let idx = u8_or(tag_attr(t, "index"@), 0);
    if idx == 0 || idx > 253 {
        acc
    } else {
        let plant = if tag_attr(t, "plantingAllowed"@) == Some("true"@) { acc.plant.push(idx) } else { acc.plant };
        let end = content_end(evs, p);
        let states = if first_child_from(evs, p + 1, end, "update"@) is None {
            acc.states
        } else {
            update_run(evs, p + 1, end, false, Seq::empty())
        };
        GrowthAcc { plant, harvest: acc.harvest + hits(states, min as int, max as int, real_index(idx, name)), states }
    }
}

/// The periods among the children `k..end` of a fruit.
pub open spec fn period_run(evs: Seq<XmlEvent>, k: int, end: int, name: Seq<char>, min: u8, max: u8, acc: GrowthAcc) -> GrowthAcc
    decreases end - k,
{
    if k < 0 || k >= end || k >= evs.len() {
        acc
    } else {
        let acc2 = match event_tag(evs[k]) {
            Some(t) => if is_period(t) { period_step(evs, k, name, min, max, acc) } else { acc },
            None => acc,
        };
        let nk = after_elem(evs, k);
        if nk >= end { acc2 } else { period_run(evs, nk, end, name, min, max, acc2) }
    }
}

/// The first crop type of the name.
pub open spec fn find_builder(bs: Seq<(Seq<char>, u8, u8, u8)>, name: Seq<char>) -> Option<(Seq<char>, u8, u8, u8)>
    decreases bs.len(),
{
    if bs.len() == 0 {
        None
    } else if bs[0].0 == name {
        Some(bs[0])
    } else {
        find_builder(bs.drop_first(), name)
    }
}

/// Every period of the year.
pub open spec fn all_periods() -> Seq<u8> {
    seq![1u8, 2u8, 3u8, 4u8, 5u8, 6u8, 7u8, 8u8, 9u8, 10u8, 11u8, 12u8]
}

/// The crop of the `fruit` element at `f`, where it is not to be ignored
/// and has a crop type: its growth time (the type's states), planting and
/// harvest periods (all year for poplars).
pub open spec fn fruit_crop(evs: Seq<XmlEvent>, f: int, bs: Seq<(Seq<char>, u8, u8, u8)>) -> Option<(Seq<char>, CropOutputView)> {
    let name = crop_name(event_tag(evs[f]).unwrap());
    if is_skip_crop_type(name) {
        None
    } else {
        match find_builder(bs, name) {
            None => None,
            Some(b) => {
                let acc = period_run(evs, f + 1, content_end(evs, f), name, b.2, b.1,
                    GrowthAcc { plant: Seq::empty(), harvest: Seq::empty(), states: Seq::empty() });
                let harvest = if name == "poplar"@ { all_periods() } else { acc.harvest };
                Some((name, CropOutputView { growth_time: b.3, harvest_periods: harvest, plant_periods: acc.plant }))
            },
        }
    }
}

/// The crops of the `fruit` elements among `k..end` (at any depth), added
/// to a crop list and its order.
pub open spec fn crops_run(evs: Seq<XmlEvent>, k: int, end: int, bs: Seq<(Seq<char>, u8, u8, u8)>,
    list: Seq<(Seq<char>, CropOutputView)>, order: Seq<Seq<char>>) -> (Seq<(Seq<char>, CropOutputView)>, Seq<Seq<char>>)
    decreases end - k,
{
    if k < 0 || k >= end || k >= evs.len() {
        (list, order)
    } else {
        let (l2, o2) = if elem_named(evs[k], "fruit"@) {
            match fruit_crop(evs, k, bs) {
                Some((n, c)) => (map_insert(list, n, c), order.push(n)),
                None => (list, order),
            }
        } else {
            (list, order)
        };
        crops_run(evs, k + 1, end, bs, l2, o2)
    }
}

/// The crops of a growth document: those of the first `seasonal` element,
/// `None` where there is none.
pub open spec fn crop_growth(evs: Seq<XmlEvent>, bs: Seq<(Seq<char>, u8, u8, u8)>) -> Option<(Seq<(Seq<char>, CropOutputView)>, Seq<Seq<char>>)> {
    match first_named_from(evs, 0, "seasonal"@) {
        None => None,
        Some(s) => Some(crops_run(evs, s + 1, content_end(evs, s), bs, Seq::empty(), Seq::empty())),
    }
}

/// Add the harvest periods a period gives.
fn push_hits(harvest: &mut Vec<u8>, states: &Vec<u8>, min: u8, max: u8, harvest_at: u8)
    ensures
        final(harvest)@ == old(harvest)@ + hits(states@, min as int, max as int, harvest_at),
{
    let ghost h0 = harvest@;
    if min > max {
        assert(hits(states@, min as int, max as int, harvest_at) =~= Seq::<u8>::empty());
        assert(harvest@ =~= h0 + hits(states@, min as int, max as int, harvest_at));
        return;
    }
    let mut s: u16 = min as u16;
    assert(h0 =~= h0 + hits(states@, min as int, min - 1, harvest_at));
    while s <= max as u16
        invariant
            min <= s <= max as int + 1,
            harvest@ == h0 + hits(states@, min as int, s - 1, harvest_at),
        decreases max as int + 1 - s,
    {
        let x = s as u8;
        if contains_u8(states, x) {
            harvest.push(harvest_at);
        }
        assert(harvest@ =~= h0 + hits(states@, min as int, s as int, harvest_at));
        s = s + 1;
    }
}

/// Does the list hold `x`?
fn contains_u8(v: &Vec<u8>, x: u8) -> (r: bool)
    ensures
        r == v@.contains(x),
{
    let mut i: usize = 0;
    while i < v.len()
        invariant
            i <= v@.len(),
            forall|j: int| 0 <= j < i ==> v@[j] != x,
        decreases v.len() - i,
    {
        if v[i] == x {
            assert(v@[i as int] == x);
            return true;
        }
        i = i + 1;
    }
    false
}

/// The range maximum of an attribute.
fn attr_range_max(t: &XmlTag, name: &str) -> (r: u8)
    ensures
        r as nat == max_of_range(tag_attr(*t, name@)),
{
    match get_attribute(t, name) {
        Some(v) => decode_max_range(Some(v.as_str())),
        None => decode_max_range(None),
    }
}

/// Run the updates among `k..end` from no possible state.
fn run_updates(evs: &Vec<XmlEvent>, k: usize, end: usize) -> (r: Vec<u8>)
    ensures
        r@ == update_run(evs@, k as int, end as int, false, Seq::empty()),
{
    let mut st: Vec<u8> = Vec::new();
    let mut die = false;
    let mut j: usize = k;
    assert(st@ =~= Seq::<u8>::empty());
    while j < end && j < evs.len()
        invariant
            k <= j,
            update_run(evs@, j as int, end as int, die, st@) == update_run(evs@, k as int, end as int, false, Seq::empty()),
        decreases end - j,
    {
        if let Some(t) = named_at(evs, j, "update") {
            if get_attribute(t, "set").is_some() {
                let range = attr_range_max(t, "range");
                let new_value = attr_range_max(t, "set");
                if range > new_value {
                    st.push(new_value);
                    die = true;
                }
            }
            if !die && get_attribute(t, "add").is_some() {
                let top = attr_range_max(t, "range");
                let add = attr_u8_or(t, "add", 0);
                st.push(top.wrapping_add(add));
            }
        }
        let nj = after_of(evs, j);
        if nj >= end {
            return st;
        }
        j = nj;
    }
    st
}

/// Apply one period of a crop.
fn apply_period(evs: &Vec<XmlEvent>, p: usize, name: &str, min: u8, max: u8,
    plant: &mut Vec<u8>, harvest: &mut Vec<u8>, states: &mut Vec<u8>)
    requires
        p < evs@.len(),
        event_tag(evs@[p as int]) is Some,
    ensures
        ({
            let acc = period_step(evs@, p as int, name@, min, max,
                GrowthAcc { plant: old(plant)@, harvest: old(harvest)@, states: old(states)@ });
            &&& final(plant)@ == acc.plant
            &&& final(harvest)@ == acc.harvest
            &&& final(states)@ == acc.states
        }),
{
    let t = match &evs[p] {
        XmlEvent::Start(t) | XmlEvent::Empty(t) => t,
        _ => { return; },
    };
    let idx = attr_u8_or(t, "index", 0);
    if idx == 0 || idx > 253 {
        return;
    }
    proof { reveal_strlit("true"); }
    match get_attribute(t, "plantingAllowed") {
        Some(v) => if str_eq(v.as_str(), "true") { plant.push(idx); },
        None => {},
    }
    let end = content_end_of(evs, p);
    if first_child_of(evs, p + 1, end, "update").is_some() {
        *states = run_updates(evs, p + 1, end);
    }
    let harvest_at = get_real_index(idx, name);
    push_hits(harvest, states, min, max, harvest_at);
}

/// The crop type of a name: its index in the list.
fn find_builder_of(bs: &Vec<CropTypeStateBuilder>, name: &str) -> (r: Option<usize>)
    ensures
        match r {
            Some(i) => i < bs@.len() && find_builder(bs@.map_values(|b: CropTypeStateBuilder| builder_view(b)), name@)
                == Some(builder_view(bs@[i as int])) && bs@[i as int].name@ == name@,
            None => find_builder(bs@.map_values(|b: CropTypeStateBuilder| builder_view(b)), name@) is None,
        },
{
    let ghost all = bs@.map_values(|b: CropTypeStateBuilder| builder_view(b));
    let mut i: usize = 0;
    assert(all.skip(0) =~= all);
    while i < bs.len()
        invariant
            i <= bs@.len(),
            all == bs@.map_values(|b: CropTypeStateBuilder| builder_view(b)),
            find_builder(all.skip(i as int), name@) == find_builder(all, name@),
        decreases bs.len() - i,
    {
        assert(all.skip(i as int).drop_first() =~= all.skip(i + 1));
        assert(all.skip(i as int)[0] == builder_view(bs@[i as int]));
        if str_eq(bs[i].name.as_str(), name) {
            return Some(i);
        }
        i = i + 1;
    }
    assert(all.skip(i as int).len() == 0);
    None
}

/// The crop of the `fruit` element at `f`.
fn fruit_crop_of(evs: &Vec<XmlEvent>, f: usize, bs: &Vec<CropTypeStateBuilder>) -> (r: Option<(String, CropOutput)>)
    requires
        f < evs@.len(),
        elem_named(evs@[f as int], "fruit"@),
    ensures
        match r {
            Some((n, c)) => fruit_crop(evs@, f as int, bs@.map_values(|b: CropTypeStateBuilder| builder_view(b))) == Some((n@, c@)),
            None => fruit_crop(evs@, f as int, bs@.map_values(|b: CropTypeStateBuilder| builder_view(b))) is None,
        },
{
    let t = match &evs[f] {
        XmlEvent::Start(t) | XmlEvent::Empty(t) => t,
        _ => { return None; },
    };
    let name = crop_name_of(t);
    proof {
        reveal_strlit("meadow");
        reveal_strlit("unknown");
        reveal_strlit("poplar");
    }
    if str_eq(name.as_str(), "meadow") || str_eq(name.as_str(), "unknown") {
        return None;
    }
    let bi = match find_builder_of(bs, name.as_str()) {
        Some(i) => i,
        None => { return None; },
    };
    let min = bs[bi].min_harvest;
    let max = bs[bi].max_harvest;
    let mut crop_def = CropOutput::new(bs[bi].states);
    let mut states: Vec<u8> = Vec::new();
    let end = content_end_of(evs, f);
    let mut j: usize = f + 1;
    let ghost acc0 = GrowthAcc { plant: Seq::empty(), harvest: Seq::empty(), states: Seq::empty() };
    assert(states@ =~= Seq::<u8>::empty());
    while j < end && j < evs.len()
        invariant
            f + 1 <= j,
            period_run(evs@, j as int, end as int, name@, min, max,
                GrowthAcc { plant: crop_def.plant_periods@, harvest: crop_def.harvest_periods@, states: states@ })
                == period_run(evs@, f + 1, end as int, name@, min, max, acc0),
            bi < bs@.len(),
            crop_def.growth_time == bs@[bi as int].states,
        decreases evs.len() - j,
    {
        let is_period = match &evs[j] {
            XmlEvent::Start(p) | XmlEvent::Empty(p) => str_eq(p.name.as_str(), "period") && get_attribute(p, "index").is_some(),
            _ => false,
        };
        if is_period {
            apply_period(evs, j, name.as_str(), min, max, &mut crop_def.plant_periods, &mut crop_def.harvest_periods, &mut states);
        }
        j = after_of(evs, j);
    }
    let ghost acc = period_run(evs@, f + 1, end as int, name@, min, max, acc0);
    assert(crop_def.plant_periods@ == acc.plant && crop_def.harvest_periods@ == acc.harvest);
    if str_eq(name.as_str(), "poplar") {
        crop_def.harvest_periods = vec![1, 2, 3, 4, 5, 6, 7, 8, 9, 10, 11, 12];
        assert(crop_def.harvest_periods@ =~= all_periods());
    }
    assert(builder_view(bs@[bi as int]) == (name@, max, min, crop_def.growth_time));
    Some((name, crop_def))
}

/// Crop types, as plain values.
pub open spec fn builders_view(bs: Seq<CropTypeStateBuilder>) -> Seq<(Seq<char>, u8, u8, u8)> {
    bs.map_values(|b: CropTypeStateBuilder| builder_view(b))
}

/// Read the crops of a growth document, with the given crop types.
pub fn crop_growth_from_events(evs: &Vec<XmlEvent>, bs: &Vec<CropTypeStateBuilder>) -> (r: Option<CropList>)
    ensures
        match r {
            Some(l) => crop_growth(evs@, bs@.map_values(|b: CropTypeStateBuilder| builder_view(b))) == Some((l.spec_list(), l.spec_order())),
            None => crop_growth(evs@, bs@.map_values(|b: CropTypeStateBuilder| builder_view(b))) is None,
        },
{
    let ghost bv = bs@.map_values(|b: CropTypeStateBuilder| builder_view(b));
    let s = match first_named_of(evs, 0, "seasonal") {
        Some(s) => s,
        None => { return None; },
    };
    let end = content_end_of(evs, s);
    let mut crop_list = CropList::new();
    assert(crop_list.spec_list() =~= Seq::<(Seq<char>, CropOutputView)>::empty());
    assert(crop_list.spec_order() =~= Seq::<Seq<char>>::empty());
    let mut k: usize = s + 1;
    while k < end && k < evs.len()
        invariant
            s + 1 <= k,
            bv == bs@.map_values(|b: CropTypeStateBuilder| builder_view(b)),
            crops_run(evs@, k as int, end as int, bv, crop_list.spec_list(), crop_list.spec_order())
                == crops_run(evs@, s + 1, end as int, bv, Seq::empty(), Seq::empty()),
        decreases evs.len() - k,
    {
        if named_at(evs, k, "fruit").is_some() {
            if let Some((name, crop_def)) = fruit_crop_of(evs, k, bs) {
                crop_list.insert(name, crop_def);
            }
        }
        k = k + 1;
    }
    Some(crop_list)
}

/// Populate crop growth from loaded XML file: the crops of the map's growth
/// file, with the given crop types; `None` where the map names no growth
/// file, it does not read, or it has no `seasonal` element.
pub fn populate_crop_growth(file: &AbstractFile, growth: Option<String>, crop_builder: &Vec<CropTypeStateBuilder>) -> (r: Option<CropList>)
    ensures
        growth is None ==> r is None,
        growth matches Some(g) && spec_text(*file, g@) is Err ==> r is None,
        r matches Some(l) ==> exists|evs: Seq<XmlEvent>| ends_with_eof(evs) && no_error(evs)
            && #[trigger] crop_growth(evs, builders_view(crop_builder@))
                == Some((l.spec_list(), l.spec_order())),
{
    let file_name = match growth {
        Some(g) => g,
        None => { return None; },
    };
    match file_events(file, file_name.as_str()) {
        Some(evs) => {
            let r = crop_growth_from_events(&evs, crop_builder);
            assert(crop_growth(evs@, builders_view(crop_builder@))
                == crop_growth(evs@, crop_builder@.map_values(|b: CropTypeStateBuilder| builder_view(b))));
            r
        },
        None => None,
    }
}

// MARK: map basics

/// Map file information
#[derive(Debug)]
pub struct MapFiles {
    /// fruitTypes file
    pub fruits: Option<String>,
    /// growth file
    pub growth: Option<String>,
    /// included environment
    pub env_in: Option<String>,
    /// base game environment key
    pub env_base: Option<String>,
}

impl MapFiles {
    /// Make new map files struct
    pub fn new() -> (r: MapFiles)
        ensures
            r.fruits is None && r.growth is None && r.env_in is None && r.env_base is None,
    {
        MapFiles { fruits: None, growth: None, env_in: None, env_base: None }
    }
}

/// The index of the first element from event `k` on.
pub open spec fn first_elem_from(evs: Seq<XmlEvent>, k: int) -> Option<int>
    decreases evs.len() - k,
{
    if k < 0 || k >= evs.len() {
        None
    } else if event_tag(evs[k]) is Some {
        Some(k)
    } else {
        first_elem_from(evs, k + 1)
    }
}

/// The `imageFilename` attribute of a document's root element.
pub open spec fn root_image(evs: Seq<XmlEvent>) -> Option<Seq<char>> {
    match first_elem_from(evs, 0) {
        Some(i) => match event_tag(evs[i]) {
            Some(t) => tag_attr(t, "imageFilename"@),
            None => None,
        },
        None => None,
    }
}

/// Read the `imageFilename` attribute of the root element.
fn root_image_of(evs: &Vec<XmlEvent>) -> (r: Option<String>)
    ensures
        opt_chars(r) == root_image(evs@),
{
    let mut k: usize = 0;
    while k < evs.len()
        invariant
            k <= evs@.len(),
            first_elem_from(evs@, k as int) == first_elem_from(evs@, 0),
        decreases evs.len() - k,
    {
        match &evs[k] {
            XmlEvent::Start(t) | XmlEvent::Empty(t) => {
                return get_attribute(t, "imageFilename");
            },
            _ => {},
        }
        k = k + 1;
    }
    None
}

/// Read which files a map config names.
pub fn map_files_from_events(evs: &Vec<XmlEvent>) -> (r: MapFiles)
    ensures
        opt_chars(r.fruits) == mod_entry(evs@, "fruitTypes"@),
        opt_chars(r.growth) == mod_entry(evs@, "growth"@),
        opt_chars(r.env_in) == mod_entry(evs@, "environment"@),
        opt_chars(r.env_base) == base_game_key(evs@),
{
    let mut map_config = MapFiles::new();
    map_config.fruits = nullify_base_game_entry(evs, "fruitTypes");
    map_config.growth = nullify_base_game_entry(evs, "growth");
    map_config.env_in = nullify_base_game_entry(evs, "environment");
    map_config.env_base = get_base_game_entry_key(evs);
    map_config
}

/// Basic details about a map.
#[derive(Debug)]
pub struct MapBasics {
    /// the map's overview image, where the config names a file of the mod
    /// (its conversion is left to the caller)
    pub map_image_file: Option<String>,
    /// map has a custom fruit list
    pub map_custom_crop: bool,
    /// map has a custom environment
    pub map_custom_env: bool,
    /// map has a custom growth file
    pub map_custom_grow: bool,
    /// map is in the southern hemisphere; left `false` here: the caller tells
    /// it from `latitude`
    pub map_is_south: bool,
    /// the latitude text of the map's own environment file
    pub latitude: Option<String>,
    /// map weather
    pub crop_weather: Option<StrMap<StrMap<i8>>>,
    /// crop details
    pub crop_info: CropList,
}

/// The base game crop list.
pub open spec fn base_crop_list(l: CropList) -> bool {
    l.spec_list() == crop_list_of(base_crops()) && l.spec_order() == base_crops().map_values(|c: Crop| c.name@)
}

/// The US map's weather.
pub open spec fn us_weather() -> Option<Seq<(Seq<char>, Seq<(Seq<char>, i8)>)>> {
    Some(season_map(base_weather_of("mapUS"@).unwrap()))
}

/// The weather and latitude a map's own environment file `f` gives: the
/// US map's weather where it does not read or parse, else its seasons and
/// its latitude text.
pub open spec fn own_weather(file: AbstractFile, f: Seq<char>, weather: Option<Seq<(Seq<char>, Seq<(Seq<char>, i8)>)>>,
    latitude: Option<Seq<char>>) -> bool {
    if spec_text(file, f) is Err {
        weather == us_weather() && latitude is None
    } else {
        (weather == us_weather() && latitude is None) || exists|evs: Seq<XmlEvent>|
            ends_with_eof(evs) && no_error(evs)
            && weather == Some(#[trigger] weather_run(evs, 0, Seq::empty()))
            && latitude == latitude_of(evs)
    }
}

/// The details of a map with no readable config: no image, no files of its
/// own, the US map's weather and the base game crops.
pub open spec fn default_basics(b: MapBasics) -> bool {
    &&& !b.map_is_south
    &&& b.map_image_file is None
    &&& !b.map_custom_crop && !b.map_custom_env && !b.map_custom_grow
    &&& b.latitude is None
    &&& weather_view(b.crop_weather) == us_weather()
    &&& base_crop_list(b.crop_info)
}

/// The details of a map whose config gives the events `evs`: the overview
/// image, which files the map brings itself, the base game weather it names
/// or the weather of its own environment file, and the base game crops
/// where it brings no growth file.
pub open spec fn config_basics(file: AbstractFile, evs: Seq<XmlEvent>, b: MapBasics) -> bool {
    &&& !b.map_is_south
    &&& opt_chars(b.map_image_file) == spec_normalize_image_file(root_image(evs)).local_file
    &&& b.map_custom_crop == mod_entry(evs, "fruitTypes"@) is Some
    &&& b.map_custom_env == mod_entry(evs, "environment"@) is Some
    &&& b.map_custom_grow == mod_entry(evs, "growth"@) is Some
    &&& (base_game_key(evs) matches Some(key) ==> b.latitude is None
        && weather_view(b.crop_weather) == (match base_weather_of(key) { Some(ss) => Some(season_map(ss)), None => None }))
    &&& (base_game_key(evs) is None ==> match mod_entry(evs, "environment"@) {
        Some(f) => own_weather(file, f, weather_view(b.crop_weather), opt_chars(b.latitude)),
        None => weather_view(b.crop_weather) == us_weather() && b.latitude is None,
    })
    &&& (mod_entry(evs, "growth"@) is None ==> base_crop_list(b.crop_info))
}

/// The details of a map from its image file and the files its config names.
fn basics_with(file: &AbstractFile, map_image_file: Option<String>, map_config: MapFiles) -> (b: MapBasics)
    ensures
        !b.map_is_south,
        b.map_image_file == map_image_file,
        b.map_custom_crop == map_config.fruits is Some,
        b.map_custom_env == map_config.env_in is Some,
        b.map_custom_grow == map_config.growth is Some,
        match map_config.env_base {
            Some(key) => weather_view(b.crop_weather) == (match base_weather_of(key@) { Some(ss) => Some(season_map(ss)), None => None })
                && b.latitude is None,
            None => match map_config.env_in {
                None => weather_view(b.crop_weather) == us_weather() && b.latitude is None,
                Some(f) => own_weather(*file, f@, weather_view(b.crop_weather), opt_chars(b.latitude)),
            },
        },
        map_config.growth is None ==> base_crop_list(b.crop_info),
{
    let map_custom_crop = map_config.fruits.is_some();
    let map_custom_env = map_config.env_in.is_some();
    let map_custom_grow = map_config.growth.is_some();
    let (environment, latitude) = populate_weather(file, map_config.env_base, map_config.env_in);
    let crop_info = if map_config.growth.is_none() {
        crops_from_base_game()
    } else {
        let crop_builder = populate_crop_builder(file, map_config.fruits);
        match populate_crop_growth(file, map_config.growth, &crop_builder) {
            Some(value) => value,
            None => crops_from_base_game(),
        }
    };
    MapBasics {
        map_image_file,
        map_custom_crop,
        map_custom_env,
        map_custom_grow,
        map_is_south: environment.0,
        latitude,
        crop_weather: environment.1,
        crop_info,
    }
}

/// The details of a map from the events of its config.
pub fn map_basics_from_config(file: &AbstractFile, evs: &Vec<XmlEvent>) -> (b: MapBasics)
    ensures
        config_basics(*file, evs@, b),
{
    let image = root_image_of(evs);
    let image_file = match &image {
        Some(v) => normalize_image_file(Some(v.as_str())),
        None => normalize_image_file(None),
    };
    let map_config = map_files_from_events(evs);
    basics_with(file, image_file.local_file, map_config)
}

/// Read basic details about the map: weather, crops, the overview image
/// file, and which of its files the map brings itself. `None` where the
/// mod names no map config. Where the config does not read, the map gets
/// the US map's weather and the base game crops, as it does where the
/// config names neither a base game environment nor a file of its own.
pub fn read_map_basics(file: &AbstractFile, map_config_file_name: Option<&str>) -> (r: Option<MapBasics>)
    ensures
        map_config_file_name is None <==> r is None,
        r matches Some(b) ==> {
            &&& (spec_text(*file, map_config_file_name.unwrap()@) is Err ==> default_basics(b))
            &&& (spec_text(*file, map_config_file_name.unwrap()@) is Ok ==> {
                ||| default_basics(b)
                ||| exists|evs: Seq<XmlEvent>| ends_with_eof(evs) && no_error(evs) && #[trigger] config_basics(*file, evs, b)
            })
        },
{
    let map_config_file_name = match map_config_file_name {
        Some(n) => n,
        None => { return None; },
    };
    match file_events(file, map_config_file_name) {
        Some(evs) => {
            let b = map_basics_from_config(file, &evs);
            assert(config_basics(*file, evs@, b));
            Some(b)
        },
        None => {
            let b = basics_with(file, None, MapFiles::new());
            proof { reveal_strlit("mapUS"); }
            Some(b)
        },
    }
}

// MARK: laws

/// Every period of the list is a period of the year.
pub open spec fn in_year(h: Seq<u8>) -> bool {
    forall|i: int| 0 <= i < h.len() ==> 1 <= #[trigger] h[i] <= 12
}

/// Every crop of the list is harvested only in periods of the year.
pub open spec fn harvests_in_year(l: Seq<(Seq<char>, CropOutputView)>) -> bool {
    forall|i: int| 0 <= i < l.len() ==> in_year(#[trigger] l[i].1.harvest_periods)
}

proof fn lemma_hits_in_year(st: Seq<u8>, lo: int, hi: int, h: u8)
    requires
        1 <= h <= 12,
    ensures
        in_year(hits(st, lo, hi, h)),
    decreases hi - lo + 1,
{
    if hi >= lo {
        lemma_hits_in_year(st, lo, hi - 1, h);
    }
}

proof fn lemma_period_run_in_year(evs: Seq<XmlEvent>, k: int, end: int, name: Seq<char>, min: u8, max: u8, acc: GrowthAcc)
    requires
        in_year(acc.harvest),
    ensures
        in_year(period_run(evs, k, end, name, min, max, acc).harvest),
    decreases end - k,
{
    if 0 <= k < end && k < evs.len() {
        let acc2 = match event_tag(evs[k]) {
            Some(t) => if is_period(t) { period_step(evs, k, name, min, max, acc) } else { acc },
            None => acc,
        };
        if let Some(t) = event_tag(evs[k]) {
            if is_period(t) {
                let idx = u8_or(tag_attr(t, "index"@), 0);
                if !(idx == 0 || idx > 253) {
                    let h = real_index(idx, name);
                    assert(1 <= h <= 12);
                    let end_p = content_end(evs, k);
                    let states = if first_child_from(evs, k + 1, end_p, "update"@) is None {
                        acc.states
                    } else {
                        update_run(evs, k + 1, end_p, false, Seq::empty())
                    };
                    lemma_hits_in_year(states, min as int, max as int, h);
                    let added = hits(states, min as int, max as int, h);
                    assert(acc2.harvest == acc.harvest + added);
                    assert forall|i: int| 0 <= i < acc2.harvest.len() implies 1 <= #[trigger] acc2.harvest[i] <= 12 by {
                        if i >= acc.harvest.len() {
                            assert(acc2.harvest[i] == added[i - acc.harvest.len()]);
                        }
                    }
                }
            }
        }
        let nk = after_elem(evs, k);
        if nk < end {
            lemma_period_run_in_year(evs, nk, end, name, min, max, acc2);
        }
    }
}

proof fn lemma_insert_in_year(l: Seq<(Seq<char>, CropOutputView)>, k: Seq<char>, v: CropOutputView)
    requires
        harvests_in_year(l),
        in_year(v.harvest_periods),
    ensures
        harvests_in_year(map_insert(l, k, v)),
{
    crate::collections::lemma_key_index(l, k);
    let m = map_insert(l, k, v);
    assert forall|i: int| 0 <= i < m.len() implies in_year(#[trigger] m[i].1.harvest_periods) by {
        match crate::collections::key_index(l, k) {
            Some(j) => if i != j { assert(m[i] == l[i]); },
            None => if i < l.len() { assert(m[i] == l[i]); },
        }
    }
}

proof fn lemma_crops_run_in_year(evs: Seq<XmlEvent>, k: int, end: int, bs: Seq<(Seq<char>, u8, u8, u8)>,
    list: Seq<(Seq<char>, CropOutputView)>, order: Seq<Seq<char>>)
    requires
        harvests_in_year(list),
    ensures
        harvests_in_year(crops_run(evs, k, end, bs, list, order).0),
    decreases end - k,
{
    if 0 <= k < end && k < evs.len() {
        if elem_named(evs[k], "fruit"@) {
            match fruit_crop(evs, k, bs) {
                Some((n, c)) => {
                    let name = crop_name(event_tag(evs[k]).unwrap());
                    let b = find_builder(bs, name).unwrap();
                    let acc = period_run(evs, k + 1, content_end(evs, k), name, b.2, b.1,
                        GrowthAcc { plant: Seq::empty(), harvest: Seq::empty(), states: Seq::empty() });
                    lemma_period_run_in_year(evs, k + 1, content_end(evs, k), name, b.2, b.1,
                        GrowthAcc { plant: Seq::empty(), harvest: Seq::empty(), states: Seq::empty() });
                    assert(in_year(c.harvest_periods));
                    lemma_insert_in_year(list, n, c);
                    lemma_crops_run_in_year(evs, k + 1, end, bs, map_insert(list, n, c), order.push(n));
                },
                None => lemma_crops_run_in_year(evs, k + 1, end, bs, list, order),
            }
        } else {
            lemma_crops_run_in_year(evs, k + 1, end, bs, list, order);
        }
    }
}

/// Every crop read from a growth file is harvested only in periods of the
/// year (1 to 12), whatever periods the file names.
pub proof fn law_growth_harvest_in_year(evs: Seq<XmlEvent>, bs: Seq<(Seq<char>, u8, u8, u8)>)
    ensures
        crop_growth(evs, bs) matches Some((l, _)) ==> harvests_in_year(l),
{
    if let Some(s) = first_named_from(evs, 0, "seasonal"@) {
        lemma_crops_run_in_year(evs, s + 1, content_end(evs, s), bs, Seq::empty(), Seq::empty());
    }
}

} // verus!
