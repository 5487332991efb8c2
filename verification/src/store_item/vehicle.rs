//! Vehicle store items: sorting, feature flags, fill units, spray types and
//! the drive train's fuel and transmission.
//!
//! Working widths and speed limits are decimal numbers; they are kept as
//! the text the file gives. Motor curves are computed from decimal numbers
//! and are left to the caller.
use vstd::prelude::*;
use crate::errors::AbstractFileError;
use crate::files::{PathType, spec_unwrap_base_path, path_with_extension};
use crate::savegame::end_of_document;
use crate::text::{to_chars, is_prefix, starts_with, str_eq, unsigned_or_zero};
use crate::xml::{XmlEvent, XmlTag, tag_attr, get_attribute, opt_chars, skip_end, skip_ok, skip_to_end,
    lemma_skip_end_bounds, tag_is};
use super::Capability;
use super::words::{words, split_words, sorted_unique, sort_dedup, texts, strictly_sorted, law_sorted_unique};
use super::placeable::{strs, attr_u32, text_u32, attr_u32_of, text_u32_of, fill_types};

verus! {

// MARK: types

/// Vehicle combo data
#[derive(Debug, PartialEq, Eq)]
pub enum Combo {
    /// Base game category
    Category(String),
    /// Filename - local
    Local(String),
    /// Filename - base game
    Base(String),
}

/// A combo, as plain values: kind (0 category, 1 local, 2 base game) and text.
pub open spec fn combo_view(c: Combo) -> (nat, Seq<char>) {
    match c {
        Combo::Category(v) => (0, v@),
        Combo::Local(v) => (1, v@),
        Combo::Base(v) => (2, v@),
    }
}

/// Vehicle flags
#[derive(Debug, Clone, Copy, PartialEq, Eq, Structural)]
pub struct Flags {
    /// has beacon lights
    pub beacons: Capability,
    /// has paint options
    pub color: Capability,
    /// can be entered by player
    pub enterable: Capability,
    /// has real lights
    pub lights: Capability,
    /// is motorized
    pub motorized: Capability,
    /// has wheel options
    pub wheels: Capability,
}

/// Fill unit in a config
#[derive(Debug, PartialEq, Eq)]
pub struct FillUnit {
    /// fill categories
    pub categories: Vec<String>,
    /// fill types
    pub types: Vec<String>,
    /// fill capacity
    pub capacity: u32,
}

/// A fill unit, as plain values.
pub open spec fn unit_view(u: FillUnit) -> (Seq<Seq<char>>, Seq<Seq<char>>, u32) {
    (strs(u.categories@), strs(u.types@), u.capacity)
}

/// Fill units, as plain values.
pub open spec fn units_view(v: Seq<FillUnit>) -> Seq<(Seq<Seq<char>>, Seq<Seq<char>>, u32)> {
    v.map_values(|u: FillUnit| unit_view(u))
}

/// Vehicle spray variant
#[derive(Debug, PartialEq, Eq)]
pub struct SprayType {
    /// fill types supported
    pub fills: Option<Vec<String>>,
    /// working width, as the file gives it
    pub width: Option<String>,
}

/// A spray type, as plain values.
pub open spec fn spray_view(s: SprayType) -> (Option<Seq<Seq<char>>>, Option<Seq<char>>) {
    (match s.fills { Some(f) => Some(strs(f@)), None => None }, opt_chars(s.width))
}

/// Vehicle drive train: what the library reads of it (motor curves are
/// computed by the caller).
#[derive(Debug, PartialEq, Eq)]
pub struct DriveTrain {
    /// fuel type
    pub fuel_type: Option<String>,
    /// transmission type (primary)
    pub transmission_type: Option<String>,
}

/// Vehicle sorting data
#[derive(Debug)]
pub struct Sorting {
    /// brand KEY
    pub brand: Option<String>,
    /// category
    pub category: Option<String>,
    /// list of combos (local or basegame)
    pub combos: Vec<Combo>,
    /// name of vehicle
    pub name: Option<String>,
    /// type name
    pub type_label: Option<String>,
    /// type description
    pub type_description: Option<String>,
    /// year of vehicle (non-standard)
    pub year: Option<u32>,
    /// vehicle functions
    pub functions: Vec<String>,
    /// this vehicle can use tools that want to connect to these joints
    pub joint_accepts: Vec<String>,
    /// this vehicle needs to connect to these type of joints
    pub joint_requires: Vec<String>,
    /// vehicle price
    pub price: Option<u32>,
    /// vehicle weight
    pub weight: u32,
    /// max speed
    pub max_speed: Option<u32>,
    /// needed power
    pub needed_power: Option<u32>,
    /// power
    pub power: Option<u32>,
    /// speed limit, as the file gives it
    pub speed_limit: Option<String>,
    /// working width, as the file gives it
    pub working_width: Option<String>,
}

/// Vehicle storeItem record
#[derive(Debug)]
pub struct Vehicle {
    /// fill configs
    pub fills: Vec<Vec<FillUnit>>,
    /// sprays
    pub sprays: Vec<SprayType>,
    /// feature flags
    pub flags: Flags,
    /// path to base game icon
    pub icon_base: Option<String>,
    /// path to local icon
    pub icon_file: Option<String>,
    /// icon data
    pub icon_data: Option<String>,
    /// fuel and transmission
    pub motor: DriveTrain,
    /// File is a sub of a different item
    pub parent_item: Option<String>,
    /// sorting information
    pub sorting: Sorting,
}

/// A vehicle, as plain values.
pub struct VehicleView {
    /// fill configs
    pub fills: Seq<Seq<(Seq<Seq<char>>, Seq<Seq<char>>, u32)>>,
    /// sprays
    pub sprays: Seq<(Option<Seq<Seq<char>>>, Option<Seq<char>>)>,
    /// flags
    pub flags: Flags,
    /// base game icon
    pub icon_base: Option<Seq<char>>,
    /// local icon
    pub icon_file: Option<Seq<char>>,
    /// icon data
    pub icon_data: Option<Seq<char>>,
    /// fuel type
    pub fuel_type: Option<Seq<char>>,
    /// transmission type
    pub transmission_type: Option<Seq<char>>,
    /// parent item
    pub parent_item: Option<Seq<char>>,
    /// brand
    pub brand: Option<Seq<char>>,
    /// category
    pub category: Option<Seq<char>>,
    /// combos
    pub combos: Seq<(nat, Seq<char>)>,
    /// name
    pub name: Option<Seq<char>>,
    /// type name
    pub type_label: Option<Seq<char>>,
    /// type description
    pub type_description: Option<Seq<char>>,
    /// year
    pub year: Option<u32>,
    /// functions
    pub functions: Seq<Seq<char>>,
    /// joints accepted
    pub joint_accepts: Seq<Seq<char>>,
    /// joints required
    pub joint_requires: Seq<Seq<char>>,
    /// price
    pub price: Option<u32>,
    /// weight
    pub weight: u32,
    /// max speed
    pub max_speed: Option<u32>,
    /// needed power
    pub needed_power: Option<u32>,
    /// power
    pub power: Option<u32>,
    /// speed limit text
    pub speed_limit: Option<Seq<char>>,
    /// working width text
    pub working_width: Option<Seq<char>>,
}

/// Fill configurations as plain values.
pub open spec fn fills_view(v: Seq<Vec<FillUnit>>) -> Seq<Seq<(Seq<Seq<char>>, Seq<Seq<char>>, u32)>> {
    v.map_values(|c: Vec<FillUnit>| units_view(c@))
}

/// Spray types as plain values.
pub open spec fn sprays_view(v: Seq<SprayType>) -> Seq<(Option<Seq<Seq<char>>>, Option<Seq<char>>)> {
    v.map_values(|s: SprayType| spray_view(s))
}

/// Combos as plain values.
pub open spec fn combos_view(v: Seq<Combo>) -> Seq<(nat, Seq<char>)> {
    v.map_values(|c: Combo| combo_view(c))
}

impl View for Vehicle {
    type V = VehicleView;

    open spec fn view(&self) -> VehicleView {
        VehicleView {
            fills: fills_view(self.fills@),
            sprays: sprays_view(self.sprays@),
            flags: self.flags,
            icon_base: opt_chars(self.icon_base),
            icon_file: opt_chars(self.icon_file),
            icon_data: opt_chars(self.icon_data),
            fuel_type: opt_chars(self.motor.fuel_type),
            transmission_type: opt_chars(self.motor.transmission_type),
            parent_item: opt_chars(self.parent_item),
            brand: opt_chars(self.sorting.brand),
            category: opt_chars(self.sorting.category),
            combos: combos_view(self.sorting.combos@),
            name: opt_chars(self.sorting.name),
            type_label: opt_chars(self.sorting.type_label),
            type_description: opt_chars(self.sorting.type_description),
            year: self.sorting.year,
            functions: strs(self.sorting.functions@),
            joint_accepts: strs(self.sorting.joint_accepts@),
            joint_requires: strs(self.sorting.joint_requires@),
            price: self.sorting.price,
            weight: self.sorting.weight,
            max_speed: self.sorting.max_speed,
            needed_power: self.sorting.needed_power,
            power: self.sorting.power,
            speed_limit: opt_chars(self.sorting.speed_limit),
            working_width: opt_chars(self.sorting.working_width),
        }
    }
}

/// A vehicle with nothing read yet.
pub open spec fn empty_vehicle() -> VehicleView {
    VehicleView {
        fills: Seq::empty(), sprays: Seq::empty(),
        flags: Flags { beacons: Capability::No, color: Capability::No, enterable: Capability::No,
            lights: Capability::No, motorized: Capability::No, wheels: Capability::No },
        icon_base: None, icon_file: None, icon_data: None, fuel_type: None, transmission_type: None,
        parent_item: None, brand: None, category: None, combos: Seq::empty(), name: None, type_label: None,
        type_description: None, year: None, functions: Seq::empty(), joint_accepts: Seq::empty(),
        joint_requires: Seq::empty(), price: None, weight: 0, max_speed: None, needed_power: None, power: None,
        speed_limit: None, working_width: None,
    }
}

// MARK: values

/// The words of an attribute but `unknown`.
pub open spec fn known_words(ws: Seq<Seq<char>>) -> Seq<Seq<char>>
    decreases ws.len(),
{
    if ws.len() == 0 {
        Seq::empty()
    } else {
        let before = known_words(ws.drop_last());
        if ws.last() == "unknown"@ { before } else { before.push(ws.last()) }
    }
}

/// A fill unit line, unless it is hidden from the shop.
pub open spec fn fill_unit_of(t: XmlTag) -> Option<(Seq<Seq<char>>, Seq<Seq<char>>, u32)> {
    if tag_attr(t, "showInShop"@) == Some("false"@) {
        None
    } else {
        Some((
            match tag_attr(t, "fillTypeCategories"@) { Some(v) => words(v), None => Seq::empty() },
            match tag_attr(t, "fillTypes"@) { Some(v) => known_words(words(v)), None => Seq::empty() },
            match attr_u32(t, "capacity"@) { Some(c) => c, None => 0 },
        ))
    }
}

/// A combination line: a base game or local file, or a category.
pub open spec fn combo_of(t: XmlTag) -> Option<(nat, Seq<char>)> {
    match tag_attr(t, "xmlFilename"@) {
        Some(f) => {
            let (base, path) = spec_unwrap_base_path(f);
            Some((if base { 2nat } else { 1nat }, path))
        },
        None => match tag_attr(t, "filterCategory"@) {
            Some(c) => Some((0nat, c)),
            None => None,
        },
    }
}

// MARK: sub-readers

/// Reading wheels from event `j` to the end tag `wheels`: the number of
/// wheel configurations, each skipped whole.
pub open spec fn wheels_run(evs: Seq<XmlEvent>, j: int, count: nat) -> (nat, int)
    decreases evs.len() - j,
{
    if j < 0 || j >= evs.len() {
        (count, evs.len() as int)
    } else {
        match evs[j] {
            XmlEvent::Error => (count, j),
            XmlEvent::Eof => (count, j),
            XmlEvent::End(n) => if n@ == "wheels"@ { (count, j + 1) } else { wheels_run(evs, j + 1, count) },
            XmlEvent::Start(t) => if t.name@ == "wheelConfiguration"@ {
                proof { lemma_skip_end_bounds(evs, j + 1, t.name@, 0); }
                let k = skip_end(evs, j + 1, t.name@, 0);
                if j < k { wheels_run(evs, k, count + 1) } else { (count + 1, k) }
            } else {
                wheels_run(evs, j + 1, count)
            },
            _ => wheels_run(evs, j + 1, count),
        }
    }
}

/// Reading a spray type from event `j` to its end tag: its working width.
pub open spec fn spray_run(evs: Seq<XmlEvent>, j: int, width: Option<Seq<char>>) -> (Option<Seq<char>>, int)
    decreases evs.len() - j,
{
    if j < 0 || j >= evs.len() {
        (width, evs.len() as int)
    } else {
        match evs[j] {
            XmlEvent::Error => (width, j),
            XmlEvent::Eof => (width, j),
            XmlEvent::End(n) => if n@ == "sprayType"@ { (width, j + 1) } else { spray_run(evs, j + 1, width) },
            XmlEvent::Empty(t) => if t.name@ == "usageScales"@ {
                spray_run(evs, j + 1, tag_attr(t, "workingWidth"@))
            } else {
                spray_run(evs, j + 1, width)
            },
            _ => spray_run(evs, j + 1, width),
        }
    }
}

/// Reading a fill unit configuration from event `j` to its end tag.
pub open spec fn fill_run(evs: Seq<XmlEvent>, j: int, units: Seq<(Seq<Seq<char>>, Seq<Seq<char>>, u32)>)
    -> (Seq<(Seq<Seq<char>>, Seq<Seq<char>>, u32)>, int)
    decreases evs.len() - j,
{
    if j < 0 || j >= evs.len() {
        (units, evs.len() as int)
    } else {
        match evs[j] {
            XmlEvent::Error => (units, j),
            XmlEvent::Eof => (units, j),
            XmlEvent::End(n) => if n@ == "fillUnitConfiguration"@ { (units, j + 1) } else { fill_run(evs, j + 1, units) },
            XmlEvent::Start(t) => if t.name@ == "fillUnit"@ {
                fill_run(evs, j + 1, match fill_unit_of(t) { Some(u) => units.push(u), None => units })
            } else {
                fill_run(evs, j + 1, units)
            },
            _ => fill_run(evs, j + 1, units),
        }
    }
}

/// Reading the specs from event `j` to the end tag `specs`.
pub open spec fn specs_run(evs: Seq<XmlEvent>, j: int, v: VehicleView) -> (VehicleView, int)
    decreases evs.len() - j,
{
    if j < 0 || j >= evs.len() {
        (v, evs.len() as int)
    } else {
        match evs[j] {
            XmlEvent::Error => (v, j),
            XmlEvent::Eof => (v, j),
            XmlEvent::End(n) => if n@ == "specs"@ { (v, j + 1) } else { specs_run(evs, j + 1, v) },
            XmlEvent::Start(t) => {
                let n = t.name@;
                if n == "workingWidth"@ || n == "power"@ || n == "neededPower"@ || n == "maxSpeed"@ {
                    let v2 = if n == "workingWidth"@ {
                        VehicleView { working_width: opt_chars(t.inner), ..v }
                    } else if n == "power"@ {
                        VehicleView { power: text_u32(t), ..v }
                    } else if n == "neededPower"@ {
                        VehicleView { needed_power: text_u32(t), ..v }
                    } else {
                        VehicleView { speed_limit: opt_chars(t.inner), ..v }
                    };
                    proof { lemma_skip_end_bounds(evs, j + 1, n, 0); }
                    let k = skip_end(evs, j + 1, n, 0);
                    if j < k { specs_run(evs, k, v2) } else { (v2, k) }
                } else {
                    specs_run(evs, j + 1, v)
                }
            },
            XmlEvent::Empty(t) => if t.name@ == "combination"@ {
                match combo_of(t) {
                    Some(c) => specs_run(evs, j + 1, VehicleView { combos: v.combos.push(c), ..v }),
                    None => specs_run(evs, j + 1, v),
                }
            } else {
                specs_run(evs, j + 1, v)
            },
            _ => specs_run(evs, j + 1, v),
        }
    }
}

/// Does a `maxSpeed` tag start at or after event `j`?
pub open spec fn max_speed_from(evs: Seq<XmlEvent>, j: int) -> bool {
    exists|i: int| j <= i < evs.len() && (#[trigger] evs[i] matches XmlEvent::Start(t) && t.name@ == "maxSpeed"@)
}

/// Reading specs where no `maxSpeed` tag follows leaves the speed limit as it was.
proof fn lemma_specs_keep_speed(evs: Seq<XmlEvent>, j: int, v: VehicleView)
    requires
        j >= 0,
        !max_speed_from(evs, j),
    ensures
        specs_run(evs, j, v).0.speed_limit == v.speed_limit,
    decreases evs.len() - j,
{
    if j < evs.len() {
        match evs[j] {
            XmlEvent::Start(t) => {
                let n = t.name@;
                assert(n != "maxSpeed"@);
                if n == "workingWidth"@ || n == "power"@ || n == "neededPower"@ || n == "maxSpeed"@ {
                    lemma_skip_end_bounds(evs, j + 1, n, 0);
                    let k = skip_end(evs, j + 1, n, 0);
                    let v2 = specs_v2(v, t);
                    assert(v2.speed_limit == v.speed_limit);
                    if j < k {
                        assert(!max_speed_from(evs, k)) by {
                            if max_speed_from(evs, k) {
                                let i = choose|i: int| k <= i < evs.len() && (#[trigger] evs[i] matches XmlEvent::Start(t) && t.name@ == "maxSpeed"@);
                                assert(max_speed_from(evs, j));
                            }
                        }
                        lemma_specs_keep_speed(evs, k, v2);
                    }
                } else {
                    lemma_specs_keep_speed(evs, j + 1, v);
                }
            },
            XmlEvent::Empty(t) => {
                if t.name@ == "combination"@ {
                    match combo_of(t) {
                        Some(c) => lemma_specs_keep_speed(evs, j + 1, VehicleView { combos: v.combos.push(c), ..v }),
                        None => lemma_specs_keep_speed(evs, j + 1, v),
                    }
                } else {
                    lemma_specs_keep_speed(evs, j + 1, v);
                }
            },
            XmlEvent::Error => {},
            XmlEvent::Eof => {},
            XmlEvent::End(n) => if n@ != "specs"@ { lemma_specs_keep_speed(evs, j + 1, v); },
            _ => lemma_specs_keep_speed(evs, j + 1, v),
        }
    }
}

/// The vehicle a specs tag `t` leaves (as reading specs applies it).
spec fn specs_v2(v: VehicleView, t: XmlTag) -> VehicleView {
    let n = t.name@;
    if n == "workingWidth"@ {
        VehicleView { working_width: opt_chars(t.inner), ..v }
    } else if n == "power"@ {
        VehicleView { power: text_u32(t), ..v }
    } else if n == "neededPower"@ {
        VehicleView { needed_power: text_u32(t), ..v }
    } else if n == "maxSpeed"@ {
        VehicleView { speed_limit: opt_chars(t.inner), ..v }
    } else {
        v
    }
}

/// A `<maxSpeed>` tag in a vehicle's specs sets its speed limit to the
/// tag's text, unless another `maxSpeed` tag follows it; with no `maxSpeed`
/// tag the speed limit stays as it was.
pub proof fn law_max_speed(evs: Seq<XmlEvent>, j: int, v: VehicleView, t: XmlTag)
    requires
        0 <= j < evs.len(),
        evs[j] == XmlEvent::Start(t),
        t.name@ == "maxSpeed"@,
        !max_speed_from(evs, j + 1),
    ensures
        specs_run(evs, j, v).0.speed_limit == opt_chars(t.inner),
{
    reveal_strlit("maxSpeed");
    reveal_strlit("workingWidth");
    reveal_strlit("power");
    reveal_strlit("neededPower");
    assert("maxSpeed"@[0] != "workingWidth"@[0] && "maxSpeed"@[0] != "power"@[0] && "maxSpeed"@[0] != "neededPower"@[0]);
    lemma_skip_end_bounds(evs, j + 1, t.name@, 0);
    let k = skip_end(evs, j + 1, t.name@, 0);
    let v2 = VehicleView { speed_limit: opt_chars(t.inner), ..v };
    assert(!max_speed_from(evs, k)) by {
        if max_speed_from(evs, k) {
            let i = choose|i: int| k <= i < evs.len() && (#[trigger] evs[i] matches XmlEvent::Start(t) && t.name@ == "maxSpeed"@);
            assert(max_speed_from(evs, j + 1));
        }
    }
    lemma_specs_keep_speed(evs, k, v2);
}

/// With no `maxSpeed` tag, reading specs leaves the speed limit as it was.
pub proof fn law_no_max_speed(evs: Seq<XmlEvent>, j: int, v: VehicleView)
    requires
        j >= 0,
        !max_speed_from(evs, j),
    ensures
        specs_run(evs, j, v).0.speed_limit == v.speed_limit,
{
    lemma_specs_keep_speed(evs, j, v);
}

/// Reading motor configurations from event `j` to the end tag
/// `motorConfigurations`: the first named transmission is the vehicle's.
pub open spec fn motors_run(evs: Seq<XmlEvent>, j: int, trans: Option<Seq<char>>) -> (Option<Seq<char>>, int)
    decreases evs.len() - j,
{
    if j < 0 || j >= evs.len() {
        (trans, evs.len() as int)
    } else {
        match evs[j] {
            XmlEvent::Error => (trans, j),
            XmlEvent::Eof => (trans, j),
            XmlEvent::End(n) => if n@ == "motorConfigurations"@ { (trans, j + 1) } else { motors_run(evs, j + 1, trans) },
            XmlEvent::Start(t) => motors_run(evs, j + 1, first_transmission(trans, t)),
            XmlEvent::Empty(t) => motors_run(evs, j + 1, first_transmission(trans, t)),
            _ => motors_run(evs, j + 1, trans),
        }
    }
}

/// The transmission so far, or that of a named `transmission` tag.
pub open spec fn first_transmission(trans: Option<Seq<char>>, t: XmlTag) -> Option<Seq<char>> {
    if t.name@ == "transmission"@ && trans is None {
        match tag_attr(t, "name"@) {
            Some(n) => Some(n),
            None => trans,
        }
    } else {
        trans
    }
}

// MARK: vehicle

/// A self-closing tag of a vehicle: component masses, required joints and
/// the first consumer's fuel.
pub open spec fn vehicle_self_closing(v: VehicleView, t: XmlTag, depth: int) -> VehicleView {
    if t.name@ == "component"@ && depth == 3 {
        match attr_u32(t, "mass"@) {
            Some(m) => VehicleView { weight: ((v.weight + m) % 0x1_0000_0000) as u32, ..v },
            None => v,
        }
    } else if t.name@ == "inputAttacherJoint"@ {
        match tag_attr(t, "jointType"@) {
            Some(j) => VehicleView { joint_requires: v.joint_requires.push(j), ..v },
            None => v,
        }
    } else if t.name@ == "consumer"@ && v.fuel_type is None {
        VehicleView { fuel_type: tag_attr(t, "fillType"@), ..v }
    } else {
        v
    }
}

/// The store image: a base game or a local icon, as a `.dds` file.
pub open spec fn vehicle_image(v: VehicleView, text: Option<Seq<char>>) -> VehicleView {
    match text {
        Some(f) => {
            let (base, path) = spec_unwrap_base_path(f);
            if base {
                VehicleView { icon_base: Some(path_with_extension(path, "dds"@)), ..v }
            } else {
                VehicleView { icon_file: Some(path_with_extension(path, "dds"@)), ..v }
            }
        },
        None => v,
    }
}

/// Tags at depth 1 that offer colors.
pub open spec fn is_color_tag(n: Seq<char>) -> bool {
    n == "baseMaterialConfigurations"@ || n == "baseColorConfigurations"@ || n == "designMaterialConfigurations"@
        || n == "designMaterial2Configurations"@ || n == "designMaterial3Configurations"@
        || is_prefix("designColorConfigurations"@, n)
}

/// Reading goes on after a sub-reader, where it moved forward.
pub open spec fn continue_vehicle(evs: Seq<XmlEvent>, i: int, k: int, depth: int, found: bool, v: VehicleView)
    -> Result<VehicleView, AbstractFileError>
    decreases evs.len() - i, 0int,
{
    if i < k <= evs.len() { vehicle_run(evs, k, depth, found, v) } else { Err(AbstractFileError::XmlParseError) }
}

/// A tag skipped whole after it was noted, where it is closed.
pub open spec fn slurp_vehicle(evs: Seq<XmlEvent>, i: int, name: Seq<char>, depth: int, found: bool, v: VehicleView)
    -> Result<VehicleView, AbstractFileError>
    decreases evs.len() - i, 1int,
{
    if skip_ok(evs, i + 1, name, 0) {
        continue_vehicle(evs, i, skip_end(evs, i + 1, name, 0), depth, found, v)
    } else {
        Err(AbstractFileError::XmlParseError)
    }
}

/// A start tag of a vehicle's parts: spray types, fill units, motors; any
/// other tag is entered.
pub open spec fn start_parts(evs: Seq<XmlEvent>, i: int, depth: int, found: bool, v: VehicleView, t: XmlTag)
    -> Result<VehicleView, AbstractFileError>
    decreases evs.len() - i, 2int,
{
    let n = t.name@;
    if n == "sprayType"@ && depth == 3 {
        let (width, k) = spray_run(evs, i + 1, None);
        let fills = match tag_attr(t, "fillTypes"@) { Some(f) => Some(known_words(words(f))), None => None };
        continue_vehicle(evs, i, k, depth, found, VehicleView { sprays: v.sprays.push((fills, width)), ..v })
    } else if n == "fillUnitConfiguration"@ && depth == 3 {
        let (units, k) = fill_run(evs, i + 1, Seq::empty());
        continue_vehicle(evs, i, k, depth, found,
            if units.len() > 0 { VehicleView { fills: v.fills.push(units), ..v } } else { v })
    } else if n == "motorConfigurations"@ && depth == 2 {
        let (trans, k) = motors_run(evs, i + 1, v.transmission_type);
        continue_vehicle(evs, i, k, depth, found, VehicleView { transmission_type: trans, ..v })
    } else {
        continue_vehicle(evs, i, i + 1, depth + 1, found, v)
    }
}

/// A start tag of a vehicle's features: motorized, enterable, lights,
/// colors, wheels, joints; else its parts.
pub open spec fn start_flags(evs: Seq<XmlEvent>, i: int, depth: int, found: bool, v: VehicleView, t: XmlTag)
    -> Result<VehicleView, AbstractFileError>
    decreases evs.len() - i, 3int,
{
    let n = t.name@;
    if n == "motorized"@ && depth == 1 {
        continue_vehicle(evs, i, i + 1, depth + 1, found, VehicleView { flags: Flags { motorized: Capability::Yes, ..v.flags }, ..v })
    } else if n == "enterable"@ && depth == 1 {
        slurp_vehicle(evs, i, n, depth, found, VehicleView { flags: Flags { enterable: Capability::Yes, ..v.flags }, ..v })
    } else if n == "realLights"@ && depth == 2 {
        slurp_vehicle(evs, i, n, depth, found, VehicleView { flags: Flags { lights: Capability::Yes, ..v.flags }, ..v })
    } else if n == "beaconLights"@ && depth == 2 {
        slurp_vehicle(evs, i, n, depth, found, VehicleView { flags: Flags { beacons: Capability::Yes, ..v.flags }, ..v })
    } else if is_color_tag(n) && depth == 1 {
        slurp_vehicle(evs, i, n, depth, found, VehicleView { flags: Flags { color: Capability::Yes, ..v.flags }, ..v })
    } else if n == "wheels"@ && depth == 1 {
        let (count, k) = wheels_run(evs, i + 1, 0);
        continue_vehicle(evs, i, k, depth, found,
            if count >= 2 { VehicleView { flags: Flags { wheels: Capability::Yes, ..v.flags }, ..v } } else { v })
    } else if n == "attacherJoint"@ {
        slurp_vehicle(evs, i, n, depth, found, match tag_attr(t, "jointType"@) {
            Some(j) => VehicleView { joint_accepts: v.joint_accepts.push(j), ..v },
            None => v,
        })
    } else if n == "inputAttacherJoint"@ {
        slurp_vehicle(evs, i, n, depth, found, match tag_attr(t, "jointType"@) {
            Some(j) => VehicleView { joint_requires: v.joint_requires.push(j), ..v },
            None => v,
        })
    } else {
        start_parts(evs, i, depth, found, v, t)
    }
}

/// A start tag of a vehicle: the root, the store data texts, the specs;
/// else its features.
pub open spec fn start_text(evs: Seq<XmlEvent>, i: int, depth: int, found: bool, v: VehicleView, t: XmlTag)
    -> Result<VehicleView, AbstractFileError>
    decreases evs.len() - i, 4int,
{
    let after = skip_end(evs, i + 1, t.name@, 0);
    let text = opt_chars(t.inner);
    let n = t.name@;
    if n == "vehicle"@ && depth == 0 {
        continue_vehicle(evs, i, i + 1, depth + 1, found, VehicleView { type_label: tag_attr(t, "type"@), ..v })
    } else if depth == 0 {
        Err(AbstractFileError::XmlWrongFileType)
    } else if n == "image"@ && depth == 2 {
        continue_vehicle(evs, i, after, depth, found, vehicle_image(v, text))
    } else if n == "parentFile"@ && depth == 1 {
        slurp_vehicle(evs, i, n, depth, found, VehicleView { parent_item: tag_attr(t, "xmlFilename"@), ..v })
    } else if n == "brand"@ && depth == 2 {
        continue_vehicle(evs, i, after, depth, found, VehicleView { brand: text, ..v })
    } else if n == "category"@ && depth == 2 {
        continue_vehicle(evs, i, after, depth, found, VehicleView { category: text, ..v })
    } else if n == "name"@ && depth == 2 {
        continue_vehicle(evs, i, after, depth, found, VehicleView { name: text, ..v })
    } else if n == "typeDesc"@ && depth == 2 {
        continue_vehicle(evs, i, after, depth, found, VehicleView { type_description: text, ..v })
    } else if n == "year"@ && depth == 2 {
        continue_vehicle(evs, i, after, depth, found, VehicleView { year: text_u32(t), ..v })
    } else if n == "function"@ && depth == 3 {
        continue_vehicle(evs, i, after, depth, found,
            match text { Some(f) => VehicleView { functions: v.functions.push(f), ..v }, None => v })
    } else if n == "price"@ && depth == 2 {
        continue_vehicle(evs, i, after, depth, found, VehicleView { price: text_u32(t), ..v })
    } else if n == "speedLimit"@ && depth == 2 {
        // the value of a speed limit is kept as the price
        continue_vehicle(evs, i, i + 1, depth, found, VehicleView { price: attr_u32(t, "value"@), ..v })
    } else if n == "specs"@ && depth == 2 {
        let (v2, k) = specs_run(evs, i + 1, v);
        continue_vehicle(evs, i, k, depth, found, v2)
    } else {
        start_flags(evs, i, depth, found, v, t)
    }
}

/// Reading a vehicle from event `i` on, with `depth` open tags and `found`
/// telling whether the declaration was seen.
pub open spec fn vehicle_run(evs: Seq<XmlEvent>, i: int, depth: int, found: bool, v: VehicleView) -> Result<VehicleView, AbstractFileError>
    decreases evs.len() - i, 5int,
{
    if i < 0 || i >= evs.len() {
        end_of_document(found, v)
    } else {
        match evs[i] {
            XmlEvent::Error => Err(AbstractFileError::XmlParseError),
            XmlEvent::Decl => vehicle_run(evs, i + 1, depth, true, v),
            XmlEvent::Eof => end_of_document(found, v),
            XmlEvent::End(_) => vehicle_run(evs, i + 1, depth - 1, found, v),
            XmlEvent::Empty(t) => vehicle_run(evs, i + 1, depth, found, vehicle_self_closing(v, t, depth)),
            XmlEvent::Start(t) => start_text(evs, i, depth, found, v, t),
            _ => vehicle_run(evs, i + 1, depth, found, v),
        }
    }
}

/// A vehicle read from its events (before its joint lists are sorted).
pub open spec fn spec_vehicle(evs: Seq<XmlEvent>) -> Result<VehicleView, AbstractFileError> {
    vehicle_run(evs, 0, 0, false, empty_vehicle())
}

/// A vehicle finished: its joint lists sorted, each joint once.
pub open spec fn finish_vehicle(v: VehicleView) -> VehicleView {
    VehicleView {
        joint_accepts: sorted_unique(v.joint_accepts),
        joint_requires: sorted_unique(v.joint_requires),
        ..v
    }
}

/// The joints a finished vehicle offers and needs come strictly in order,
/// each once, and are just the joints its file names.
pub proof fn law_vehicle_joints(w: VehicleView)
    ensures
        strictly_sorted(finish_vehicle(w).joint_accepts),
        strictly_sorted(finish_vehicle(w).joint_requires),
        forall|x: Seq<char>| finish_vehicle(w).joint_accepts.contains(x) <==> w.joint_accepts.contains(x),
        forall|x: Seq<char>| finish_vehicle(w).joint_requires.contains(x) <==> w.joint_requires.contains(x),
{
    law_sorted_unique(w.joint_accepts);
    law_sorted_unique(w.joint_requires);
}

// MARK: reading values

/// The words but `unknown`.
fn known_words_of(ws: &Vec<String>) -> (r: Vec<String>)
    ensures
        strs(r@) == known_words(strs(ws@)),
{
    let mut r: Vec<String> = Vec::new();
    let mut i: usize = 0;
    assert(strs(ws@).subrange(0, 0) =~= Seq::<Seq<char>>::empty());
    assert(strs(r@) =~= known_words(strs(ws@).subrange(0, 0)));
    while i < ws.len()
        invariant
            i <= ws@.len(),
            strs(r@) == known_words(strs(ws@).subrange(0, i as int)),
        decreases ws.len() - i,
    {
        let ghost before = r@;
        assert(strs(ws@).subrange(0, i + 1).drop_last() =~= strs(ws@).subrange(0, i as int));
        assert(strs(ws@).subrange(0, i + 1).last() == ws@[i as int]@);
        proof { reveal_strlit("unknown"); }
        if !str_eq(ws[i].as_str(), "unknown") {
            r.push(ws[i].clone());
            assert(strs(r@) =~= strs(before).push(ws@[i as int]@));
        }
        i = i + 1;
    }
    assert(strs(ws@).subrange(0, ws@.len() as int) =~= strs(ws@));
    r
}

/// Texts as their words, as plain values.
proof fn lemma_strs_texts(v: Seq<String>)
    ensures
        strs(v) == texts(v),
{
    assert(strs(v) =~= texts(v));
}

/// Read a fill unit line.
fn fill_unit_from(t: &XmlTag) -> (r: Option<FillUnit>)
    ensures
        match r {
            Some(u) => fill_unit_of(*t) == Some(unit_view(u)),
            None => fill_unit_of(*t) is None,
        },
{
    proof { reveal_strlit("false"); }
    if let Some(v) = get_attribute(t, "showInShop") {
        if str_eq(v.as_str(), "false") {
            return None;
        }
    }
    let capacity = match attr_u32_of(t, "capacity") { Some(c) => c, None => 0 };
    let types = match get_attribute(t, "fillTypes") {
        Some(v) => known_words_of(&split_words(v.as_str())),
        None => Vec::new(),
    };
    let categories = match get_attribute(t, "fillTypeCategories") {
        Some(v) => {
            let w = split_words(v.as_str());
            proof { lemma_strs_texts(w@); }
            w
        },
        None => Vec::new(),
    };
    let u = FillUnit { categories, types, capacity };
    assert(strs(Seq::<String>::empty()) =~= Seq::<Seq<char>>::empty());
    Some(u)
}

/// Read a combination line.
fn combo_from(t: &XmlTag) -> (r: Option<Combo>)
    ensures
        match r {
            Some(c) => combo_of(*t) == Some(combo_view(c)),
            None => combo_of(*t) is None,
        },
{
    match get_attribute(t, "xmlFilename") {
        Some(f) => match PathType::unwrap_base_path(f.as_str()) {
            PathType::Base(v) => Some(Combo::Base(v)),
            PathType::Local(v) => Some(Combo::Local(v)),
        },
        None => match get_attribute(t, "filterCategory") {
            Some(c) => Some(Combo::Category(c)),
            None => None,
        },
    }
}

// MARK: sub-readers

/// Read wheels from event `j` to the end tag `wheels`.
fn read_wheels(evs: &Vec<XmlEvent>, j: usize) -> (r: (usize, usize))
    requires
        j <= evs@.len(),
    ensures
        (r.0 as nat, r.1 as int) == wheels_run(evs@, j as int, 0),
        j <= r.1 <= evs@.len(),
{
    let mut count: usize = 0;
    let mut k: usize = j;
    while k < evs.len()
        invariant
            j <= k <= evs@.len(),
            count <= k - j,
            wheels_run(evs@, k as int, count as nat) == wheels_run(evs@, j as int, 0),
        decreases evs.len() - k,
    {
        match &evs[k] {
            XmlEvent::Error | XmlEvent::Eof => { return (count, k); },
            XmlEvent::End(n) => {
                if str_eq(n.as_str(), "wheels") {
                    return (count, k + 1);
                }
            },
            XmlEvent::Start(t) => {
                if tag_is(t, "wheelConfiguration") {
                    proof { lemma_skip_end_bounds(evs@, k + 1, t.name@, 0); }
                    let (after, _) = skip_to_end(evs, k + 1, t.name.as_str());
                    count = count + 1;
                    k = after;
                    continue;
                }
            },
            _ => {},
        }
        k = k + 1;
    }
    (count, k)
}

/// Read a spray type from event `j` to its end tag.
fn read_spray(evs: &Vec<XmlEvent>, j: usize) -> (r: (Option<String>, usize))
    requires
        j <= evs@.len(),
    ensures
        (opt_chars(r.0), r.1 as int) == spray_run(evs@, j as int, None),
        j <= r.1 <= evs@.len(),
{
    let mut width: Option<String> = None;
    let mut k: usize = j;
    while k < evs.len()
        invariant
            j <= k <= evs@.len(),
            spray_run(evs@, k as int, opt_chars(width)) == spray_run(evs@, j as int, None),
        decreases evs.len() - k,
    {
        match &evs[k] {
            XmlEvent::Error | XmlEvent::Eof => { return (width, k); },
            XmlEvent::End(n) => {
                if str_eq(n.as_str(), "sprayType") {
                    return (width, k + 1);
                }
            },
            XmlEvent::Empty(t) => {
                if tag_is(t, "usageScales") {
                    width = get_attribute(t, "workingWidth");
                }
            },
            _ => {},
        }
        k = k + 1;
    }
    (width, k)
}

/// Read a fill unit configuration from event `j` to its end tag.
fn read_fill(evs: &Vec<XmlEvent>, j: usize) -> (r: (Vec<FillUnit>, usize))
    requires
        j <= evs@.len(),
    ensures
        (units_view(r.0@), r.1 as int) == fill_run(evs@, j as int, Seq::empty()),
        j <= r.1 <= evs@.len(),
{
    let mut units: Vec<FillUnit> = Vec::new();
    let mut k: usize = j;
    assert(units_view(units@) =~= Seq::<(Seq<Seq<char>>, Seq<Seq<char>>, u32)>::empty());
    while k < evs.len()
        invariant
            j <= k <= evs@.len(),
            fill_run(evs@, k as int, units_view(units@)) == fill_run(evs@, j as int, Seq::empty()),
        decreases evs.len() - k,
    {
        match &evs[k] {
            XmlEvent::Error | XmlEvent::Eof => { return (units, k); },
            XmlEvent::End(n) => {
                if str_eq(n.as_str(), "fillUnitConfiguration") {
                    return (units, k + 1);
                }
            },
            XmlEvent::Start(t) => {
                if tag_is(t, "fillUnit") {
                    let ghost before = units@;
                    if let Some(u) = fill_unit_from(t) {
                        units.push(u);
                        assert(units_view(units@) =~= units_view(before).push(fill_unit_of(*t).unwrap()));
                    }
                }
            },
            _ => {},
        }
        k = k + 1;
    }
    (units, k)
}

/// Read motor configurations from event `j` to their end tag: the first
/// named transmission.
fn read_motors(evs: &Vec<XmlEvent>, j: usize, first: Option<String>) -> (r: (Option<String>, usize))
    requires
        j <= evs@.len(),
    ensures
        (opt_chars(r.0), r.1 as int) == motors_run(evs@, j as int, opt_chars(first)),
        j <= r.1 <= evs@.len(),
{
    let mut trans = first;
    let mut k: usize = j;
    while k < evs.len()
        invariant
            j <= k <= evs@.len(),
            motors_run(evs@, k as int, opt_chars(trans)) == motors_run(evs@, j as int, opt_chars(first)),
        decreases evs.len() - k,
    {
        match &evs[k] {
            XmlEvent::Error | XmlEvent::Eof => { return (trans, k); },
            XmlEvent::End(n) => {
                if str_eq(n.as_str(), "motorConfigurations") {
                    return (trans, k + 1);
                }
            },
            XmlEvent::Start(t) | XmlEvent::Empty(t) => {
                if tag_is(t, "transmission") && trans.is_none() {
                    if let Some(name) = get_attribute(t, "name") {
                        trans = Some(name);
                    }
                }
            },
            _ => {},
        }
        k = k + 1;
    }
    (trans, k)
}

// MARK: vehicle

/// Reading goes on where a sub-reader stopped.
pub proof fn lemma_continue_vehicle(evs: Seq<XmlEvent>, i: int, k: int, depth: int, found: bool, v: VehicleView)
    requires
        i < k <= evs.len(),
    ensures
        continue_vehicle(evs, i, k, depth, found, v) == vehicle_run(evs, k, depth, found, v),
{
}

/// A tag skipped whole fails where it is not closed, and reading goes on
/// after it where it is.
pub proof fn lemma_slurp_vehicle(evs: Seq<XmlEvent>, i: int, name: Seq<char>, depth: int, found: bool)
    requires
        0 <= i < evs.len(),
    ensures
        forall|v: VehicleView| #[trigger] slurp_vehicle(evs, i, name, depth, found, v) == if skip_ok(evs, i + 1, name, 0) {
            vehicle_run(evs, skip_end(evs, i + 1, name, 0), depth, found, v)
        } else {
            Err(AbstractFileError::XmlParseError)
        },
{
    lemma_skip_end_bounds(evs, i + 1, name, 0);
}

impl Vehicle {
    /// A vehicle with nothing read yet.
    pub fn new() -> (r: Vehicle)
        ensures
            r@ == empty_vehicle(),
    {
        let r = Vehicle {
            fills: Vec::new(),
            sprays: Vec::new(),
            flags: Flags { beacons: Capability::No, color: Capability::No, enterable: Capability::No,
                lights: Capability::No, motorized: Capability::No, wheels: Capability::No },
            icon_base: None,
            icon_file: None,
            icon_data: None,
            motor: DriveTrain { fuel_type: None, transmission_type: None },
            parent_item: None,
            sorting: Sorting {
                brand: None, category: None, combos: Vec::new(), name: None, type_label: None, type_description: None,
                year: None, functions: Vec::new(), joint_accepts: Vec::new(), joint_requires: Vec::new(), price: None,
                weight: 0, max_speed: None, needed_power: None, power: None, speed_limit: None, working_width: None,
            },
        };
        assert(r@.fills =~= Seq::<Seq<(Seq<Seq<char>>, Seq<Seq<char>>, u32)>>::empty());
        assert(r@.sprays =~= Seq::<(Option<Seq<Seq<char>>>, Option<Seq<char>>)>::empty());
        assert(r@.combos =~= Seq::<(nat, Seq<char>)>::empty());
        assert(r@.functions =~= Seq::<Seq<char>>::empty());
        assert(r@.joint_accepts =~= Seq::<Seq<char>>::empty());
        assert(r@.joint_requires =~= Seq::<Seq<char>>::empty());
        r
    }

    /// Add a joint a tool needs.
    fn push_requires(&mut self, j: String)
        ensures
            final(self)@ == (VehicleView { joint_requires: old(self)@.joint_requires.push(j@), ..old(self)@ }),
    {
        let ghost j0 = self.sorting.joint_requires@;
        self.sorting.joint_requires.push(j);
        assert(strs(self.sorting.joint_requires@) =~= strs(j0).push(j@));
    }

    /// Apply a self-closing tag.
    fn self_closing(&mut self, t: &XmlTag, depth: i64)
        ensures
            final(self)@ == vehicle_self_closing(old(self)@, *t, depth as int),
    {
        if tag_is(t, "component") && depth == 3 {
            if let Some(m) = attr_u32_of(t, "mass") {
                self.sorting.weight = self.sorting.weight.wrapping_add(m);
            }
        } else if tag_is(t, "inputAttacherJoint") {
            if let Some(j) = get_attribute(t, "jointType") {
                self.push_requires(j);
            }
        } else if tag_is(t, "consumer") && self.motor.fuel_type.is_none() {
            self.motor.fuel_type = get_attribute(t, "fillType");
        }
    }

    /// Apply the store image.
    fn image(&mut self, t: &XmlTag)
        ensures
            final(self)@ == vehicle_image(old(self)@, opt_chars(t.inner)),
    {
        if let Some(f) = &t.inner {
            let path = PathType::unwrap_base_path(f.as_str());
            match &path {
                PathType::Base(_) => { self.icon_base = Some(path.to_dds()); },
                PathType::Local(_) => { self.icon_file = Some(path.to_dds()); },
            }
        }
    }

    /// Read the specs from event `j` to the end tag `specs`.
    fn read_specs(&mut self, evs: &Vec<XmlEvent>, j: usize) -> (r: usize)
        requires
            j <= evs@.len(),
        ensures
            (final(self)@, r as int) == specs_run(evs@, j as int, old(self)@),
            j <= r <= evs@.len(),
    {
        let mut k: usize = j;
        while k < evs.len()
            invariant
                j <= k <= evs@.len(),
                specs_run(evs@, k as int, self@) == specs_run(evs@, j as int, old(self)@),
            decreases evs.len() - k,
        {
            match &evs[k] {
                XmlEvent::Error | XmlEvent::Eof => { return k; },
                XmlEvent::End(n) => {
                    if str_eq(n.as_str(), "specs") {
                        return k + 1;
                    }
                },
                XmlEvent::Start(t) => {
                    let ww = tag_is(t, "workingWidth");
                    let pw = tag_is(t, "power");
                    let np = tag_is(t, "neededPower");
                    let ms = tag_is(t, "maxSpeed");
                    if ww || pw || np || ms {
                        if ww {
                            self.sorting.working_width = crate::mod_desc::copy_opt(&t.inner);
                        } else if pw {
                            self.sorting.power = text_u32_of(t);
                        } else if np {
                            self.sorting.needed_power = text_u32_of(t);
                        } else {
                            self.sorting.speed_limit = crate::mod_desc::copy_opt(&t.inner);
                        }
                        proof { lemma_skip_end_bounds(evs@, k + 1, t.name@, 0); }
                        let (after, _) = skip_to_end(evs, k + 1, t.name.as_str());
                        k = after;
                        continue;
                    }
                },
                XmlEvent::Empty(t) => {
                    if tag_is(t, "combination") {
                        if let Some(c) = combo_from(t) {
                            let ghost c0 = self.sorting.combos@;
                            self.sorting.combos.push(c);
                            assert(combos_view(self.sorting.combos@) =~= combos_view(c0).push(combo_of(*t).unwrap()));
                        }
                    }
                },
                _ => {},
            }
            k = k + 1;
        }
        k
    }

    /// Handle the start tag `t` at event `i`, at `depth`: where reading
    /// goes on, and at which depth.
    #[verifier::rlimit(40)]
    fn start_text_tag(&mut self, evs: &Vec<XmlEvent>, i: usize, t: &XmlTag, depth: i64, found: bool) -> (r: Result<(usize, i64), AbstractFileError>)
        requires
            i < evs.len(),
            evs@[i as int] == XmlEvent::Start(*t),
            i64::MIN < depth < i64::MAX,
        ensures
            match r {
                Ok((k, nd)) => i < k <= evs@.len() && (nd == depth || nd == depth + 1)
                    && start_text(evs@, i as int, depth as int, found, old(self)@, *t) == vehicle_run(evs@, k as int, nd as int, found, final(self)@),
                Err(e) => start_text(evs@, i as int, depth as int, found, old(self)@, *t) == Err::<VehicleView, AbstractFileError>(e),
            },
    {
        proof { lemma_skip_end_bounds(evs@, i + 1, t.name@, 0); }
        let (after, slurped) = skip_to_end(evs, i + 1, t.name.as_str());
        let n = t.name.as_str();
        let ghost v0 = self@;
        if str_eq(n, "vehicle") && depth == 0 {
            self.sorting.type_label = get_attribute(t, "type");
            proof { lemma_continue_vehicle(evs@, i as int, i + 1, depth + 1, found, self@); }
            Ok((i + 1, depth + 1))
        } else if depth == 0 {
            Err(AbstractFileError::XmlWrongFileType)
        } else if str_eq(n, "image") && depth == 2 {
            self.image(t);
            proof { lemma_continue_vehicle(evs@, i as int, after as int, depth as int, found, self@); }
            Ok((after, depth))
        } else if str_eq(n, "parentFile") && depth == 1 {
            proof { lemma_slurp_vehicle(evs@, i as int, t.name@, depth as int, found); }
            assert(t.name@ == "parentFile"@);
            assert(start_text(evs@, i as int, depth as int, found, v0, *t)
                == slurp_vehicle(evs@, i as int, t.name@, depth as int, found, VehicleView { parent_item: tag_attr(*t, "xmlFilename"@), ..v0 }));
            if !slurped {
                return Err(AbstractFileError::XmlParseError);
            }
            self.parent_item = get_attribute(t, "xmlFilename");
            proof { lemma_continue_vehicle(evs@, i as int, after as int, depth as int, found, self@); }
            Ok((after, depth))
        } else if str_eq(n, "brand") && depth == 2 {
            self.sorting.brand = crate::mod_desc::copy_opt(&t.inner);
            proof { lemma_continue_vehicle(evs@, i as int, after as int, depth as int, found, self@); }
            Ok((after, depth))
        } else if str_eq(n, "category") && depth == 2 {
            self.sorting.category = crate::mod_desc::copy_opt(&t.inner);
            proof { lemma_continue_vehicle(evs@, i as int, after as int, depth as int, found, self@); }
            Ok((after, depth))
        } else if str_eq(n, "name") && depth == 2 {
            self.sorting.name = crate::mod_desc::copy_opt(&t.inner);
            proof { lemma_continue_vehicle(evs@, i as int, after as int, depth as int, found, self@); }
            Ok((after, depth))
        } else if str_eq(n, "typeDesc") && depth == 2 {
            self.sorting.type_description = crate::mod_desc::copy_opt(&t.inner);
            proof { lemma_continue_vehicle(evs@, i as int, after as int, depth as int, found, self@); }
            Ok((after, depth))
        } else if str_eq(n, "year") && depth == 2 {
            self.sorting.year = text_u32_of(t);
            proof { lemma_continue_vehicle(evs@, i as int, after as int, depth as int, found, self@); }
            Ok((after, depth))
        } else if str_eq(n, "function") && depth == 3 {
            if let Some(f) = &t.inner {
                let ghost f0 = self.sorting.functions@;
                self.sorting.functions.push(f.clone());
                assert(strs(self.sorting.functions@) =~= strs(f0).push(f@));
            }
            proof { lemma_continue_vehicle(evs@, i as int, after as int, depth as int, found, self@); }
            Ok((after, depth))
        } else if str_eq(n, "price") && depth == 2 {
            self.sorting.price = text_u32_of(t);
            proof { lemma_continue_vehicle(evs@, i as int, after as int, depth as int, found, self@); }
            Ok((after, depth))
        } else if str_eq(n, "speedLimit") && depth == 2 {
            self.sorting.price = attr_u32_of(t, "value");
            proof { lemma_continue_vehicle(evs@, i as int, i + 1, depth as int, found, self@); }
            Ok((i + 1, depth))
        } else if str_eq(n, "specs") && depth == 2 {
            let k = self.read_specs(evs, i + 1);
            if k <= i {
                return Err(AbstractFileError::XmlParseError);
            }
            proof { lemma_continue_vehicle(evs@, i as int, k as int, depth as int, found, self@); }
            Ok((k, depth))
        } else {
            self.start_flags_tag(evs, i, t, depth, found)
        }
    }

    /// A start tag of the features of a vehicle.
    #[verifier::rlimit(40)]
    fn start_flags_tag(&mut self, evs: &Vec<XmlEvent>, i: usize, t: &XmlTag, depth: i64, found: bool) -> (r: Result<(usize, i64), AbstractFileError>)
        requires
            i < evs.len(),
            evs@[i as int] == XmlEvent::Start(*t),
            i64::MIN < depth < i64::MAX,
        ensures
            match r {
                Ok((k, nd)) => i < k <= evs@.len() && (nd == depth || nd == depth + 1)
                    && start_flags(evs@, i as int, depth as int, found, old(self)@, *t) == vehicle_run(evs@, k as int, nd as int, found, final(self)@),
                Err(e) => start_flags(evs@, i as int, depth as int, found, old(self)@, *t) == Err::<VehicleView, AbstractFileError>(e),
            },
    {
        proof { lemma_skip_end_bounds(evs@, i + 1, t.name@, 0); }
        let (after, slurped) = skip_to_end(evs, i + 1, t.name.as_str());
        let n = t.name.as_str();
        let ghost v0 = self@;
        if str_eq(n, "motorized") && depth == 1 {
            self.flags.motorized = Capability::Yes;
            proof { lemma_continue_vehicle(evs@, i as int, i + 1, depth + 1, found, self@); }
            Ok((i + 1, depth + 1))
        } else if str_eq(n, "enterable") && depth == 1 {
            proof { lemma_slurp_vehicle(evs@, i as int, t.name@, depth as int, found); }
            assert(t.name@ == "enterable"@);
            assert(start_flags(evs@, i as int, depth as int, found, v0, *t)
                == slurp_vehicle(evs@, i as int, t.name@, depth as int, found, VehicleView { flags: Flags { enterable: Capability::Yes, ..v0.flags }, ..v0 }));
            if !slurped {
                return Err(AbstractFileError::XmlParseError);
            }
            self.flags.enterable = Capability::Yes;
            proof { lemma_continue_vehicle(evs@, i as int, after as int, depth as int, found, self@); }
            Ok((after, depth))
        } else if str_eq(n, "realLights") && depth == 2 {
            proof { lemma_slurp_vehicle(evs@, i as int, t.name@, depth as int, found); }
            assert(t.name@ == "realLights"@);
            assert(start_flags(evs@, i as int, depth as int, found, v0, *t)
                == slurp_vehicle(evs@, i as int, t.name@, depth as int, found, VehicleView { flags: Flags { lights: Capability::Yes, ..v0.flags }, ..v0 }));
            if !slurped {
                return Err(AbstractFileError::XmlParseError);
            }
            self.flags.lights = Capability::Yes;
            proof { lemma_continue_vehicle(evs@, i as int, after as int, depth as int, found, self@); }
            Ok((after, depth))
        } else if str_eq(n, "beaconLights") && depth == 2 {
            proof { lemma_slurp_vehicle(evs@, i as int, t.name@, depth as int, found); }
            assert(t.name@ == "beaconLights"@);
            assert(start_flags(evs@, i as int, depth as int, found, v0, *t)
                == slurp_vehicle(evs@, i as int, t.name@, depth as int, found, VehicleView { flags: Flags { beacons: Capability::Yes, ..v0.flags }, ..v0 }));
            if !slurped {
                return Err(AbstractFileError::XmlParseError);
            }
            self.flags.beacons = Capability::Yes;
            proof { lemma_continue_vehicle(evs@, i as int, after as int, depth as int, found, self@); }
            Ok((after, depth))
        } else if is_color(n) && depth == 1 {
            proof { lemma_slurp_vehicle(evs@, i as int, t.name@, depth as int, found); }
            assert(start_flags(evs@, i as int, depth as int, found, v0, *t)
                == slurp_vehicle(evs@, i as int, t.name@, depth as int, found, VehicleView { flags: Flags { color: Capability::Yes, ..v0.flags }, ..v0 }));
            if !slurped {
                return Err(AbstractFileError::XmlParseError);
            }
            self.flags.color = Capability::Yes;
            proof { lemma_continue_vehicle(evs@, i as int, after as int, depth as int, found, self@); }
            Ok((after, depth))
        } else if str_eq(n, "wheels") && depth == 1 {
            let (count, k) = read_wheels(evs, i + 1);
            if k <= i {
                return Err(AbstractFileError::XmlParseError);
            }
            if count >= 2 {
                self.flags.wheels = Capability::Yes;
            }
            proof { lemma_continue_vehicle(evs@, i as int, k as int, depth as int, found, self@); }
            Ok((k, depth))
        } else if str_eq(n, "attacherJoint") {
            proof { lemma_slurp_vehicle(evs@, i as int, t.name@, depth as int, found); }
            assert(t.name@ == "attacherJoint"@);
            assert(start_flags(evs@, i as int, depth as int, found, v0, *t)
                == slurp_vehicle(evs@, i as int, t.name@, depth as int, found, match tag_attr(*t, "jointType"@) {
                    Some(j) => VehicleView { joint_accepts: v0.joint_accepts.push(j), ..v0 },
                    None => v0,
                }));
            if !slurped {
                return Err(AbstractFileError::XmlParseError);
            }
            if let Some(j) = get_attribute(t, "jointType") {
                let ghost j0 = self.sorting.joint_accepts@;
                self.sorting.joint_accepts.push(j);
                assert(strs(self.sorting.joint_accepts@) =~= strs(j0).push(tag_attr(*t, "jointType"@).unwrap()));
            }
            proof { lemma_continue_vehicle(evs@, i as int, after as int, depth as int, found, self@); }
            Ok((after, depth))
        } else if str_eq(n, "inputAttacherJoint") {
            proof { lemma_slurp_vehicle(evs@, i as int, t.name@, depth as int, found); }
            assert(t.name@ == "inputAttacherJoint"@);
            assert(start_flags(evs@, i as int, depth as int, found, v0, *t)
                == slurp_vehicle(evs@, i as int, t.name@, depth as int, found, match tag_attr(*t, "jointType"@) {
                    Some(j) => VehicleView { joint_requires: v0.joint_requires.push(j), ..v0 },
                    None => v0,
                }));
            if !slurped {
                return Err(AbstractFileError::XmlParseError);
            }
            if let Some(j) = get_attribute(t, "jointType") {
                self.push_requires(j);
            }
            proof { lemma_continue_vehicle(evs@, i as int, after as int, depth as int, found, self@); }
            Ok((after, depth))
        } else {
            self.start_parts_tag(evs, i, t, depth, found)
        }
    }

    /// A start tag of the parts of a vehicle.
    #[verifier::rlimit(40)]
    fn start_parts_tag(&mut self, evs: &Vec<XmlEvent>, i: usize, t: &XmlTag, depth: i64, found: bool) -> (r: Result<(usize, i64), AbstractFileError>)
        requires
            i < evs.len(),
            evs@[i as int] == XmlEvent::Start(*t),
            i64::MIN < depth < i64::MAX,
        ensures
            match r {
                Ok((k, nd)) => i < k <= evs@.len() && (nd == depth || nd == depth + 1)
                    && start_parts(evs@, i as int, depth as int, found, old(self)@, *t) == vehicle_run(evs@, k as int, nd as int, found, final(self)@),
                Err(e) => start_parts(evs@, i as int, depth as int, found, old(self)@, *t) == Err::<VehicleView, AbstractFileError>(e),
            },
    {
        let n = t.name.as_str();
        if str_eq(n, "sprayType") && depth == 3 {
            let (width, k) = read_spray(evs, i + 1);
            if k <= i {
                return Err(AbstractFileError::XmlParseError);
            }
            let fills = match get_attribute(t, "fillTypes") {
                Some(f) => Some(known_words_of(&split_words(f.as_str()))),
                None => None,
            };
            let ghost s0 = self.sprays@;
            let spray = SprayType { fills, width };
            self.sprays.push(spray);
            assert(sprays_view(self.sprays@) =~= sprays_view(s0).push(spray_view(spray)));
            proof { lemma_continue_vehicle(evs@, i as int, k as int, depth as int, found, self@); }
            Ok((k, depth))
        } else if str_eq(n, "fillUnitConfiguration") && depth == 3 {
            let (units, k) = read_fill(evs, i + 1);
            if k <= i {
                return Err(AbstractFileError::XmlParseError);
            }
            if units.len() > 0 {
                let ghost f0 = self.fills@;
                self.fills.push(units);
                assert(fills_view(self.fills@) =~= fills_view(f0).push(units_view(units@)));
            }
            proof { lemma_continue_vehicle(evs@, i as int, k as int, depth as int, found, self@); }
            Ok((k, depth))
        } else if str_eq(n, "motorConfigurations") && depth == 2 {
            let first = crate::mod_desc::copy_opt(&self.motor.transmission_type);
            let (trans, k) = read_motors(evs, i + 1, first);
            if k <= i {
                return Err(AbstractFileError::XmlParseError);
            }
            self.motor.transmission_type = trans;
            proof { lemma_continue_vehicle(evs@, i as int, k as int, depth as int, found, self@); }
            Ok((k, depth))
        } else {
            proof { lemma_continue_vehicle(evs@, i as int, i + 1, depth + 1, found, self@); }
            Ok((i + 1, depth + 1))
        }
    }

    /// Sort the joint lists, each joint once.
    fn finish(&mut self)
        ensures
            final(self)@ == finish_vehicle(old(self)@),
    {
        let mut accepts: Vec<String> = Vec::new();
        std::mem::swap(&mut accepts, &mut self.sorting.joint_accepts);
        let mut needs: Vec<String> = Vec::new();
        std::mem::swap(&mut needs, &mut self.sorting.joint_requires);
        proof {
            assert(strs(accepts@) =~= texts(accepts@));
            assert(strs(needs@) =~= texts(needs@));
        }
        let a2 = sort_dedup(accepts);
        let r2 = sort_dedup(needs);
        proof {
            assert(strs(a2@) =~= texts(a2@));
            assert(strs(r2@) =~= texts(r2@));
        }
        self.sorting.joint_accepts = a2;
        self.sorting.joint_requires = r2;
    }

    /// Read a vehicle from the events of its file; the joints it offers
    /// and needs come sorted, each once.
    ///
    /// # Errors
    /// `XmlParseError` where the text does not parse or a tag is left open,
    /// `XmlWrongFileType` where the root tag is not `vehicle`,
    /// `XmlUndeclared` where the XML declaration is missing.
    pub fn from_events(evs: &Vec<XmlEvent>) -> (r: Result<Vehicle, AbstractFileError>)
        requires
            evs@.len() < i64::MAX,
        ensures
            match r {
                Ok(v) => spec_vehicle(evs@) is Ok && v@ == finish_vehicle(spec_vehicle(evs@)->Ok_0),
                Err(e) => spec_vehicle(evs@) == Err::<VehicleView, AbstractFileError>(e),
            },
    {
        let mut v = Vehicle::new();
        let mut i: usize = 0;
        let mut depth: i64 = 0;
        let mut found = false;
        while i < evs.len()
            invariant
                i <= evs@.len(),
                evs@.len() < i64::MAX,
                -(i as int) <= depth <= i,
                vehicle_run(evs@, i as int, depth as int, found, v@) == spec_vehicle(evs@),
            decreases evs.len() - i,
        {
            let mut next: usize = i + 1;
            match &evs[i] {
                XmlEvent::Error => { return Err(AbstractFileError::XmlParseError); },
                XmlEvent::Decl => { found = true; },
                XmlEvent::Eof => {
                    if found {
                        v.finish();
                        return Ok(v);
                    }
                    return Err(AbstractFileError::XmlUndeclared);
                },
                XmlEvent::End(_) => { depth = depth - 1; },
                XmlEvent::Empty(t) => { v.self_closing(t, depth); },
                XmlEvent::Start(t) => {
                    let (k, nd) = v.start_text_tag(evs, i, t, depth, found)?;
                    next = k;
                    depth = nd;
                },
                _ => {},
            }
            i = next;
        }
        if found {
            v.finish();
            Ok(v)
        } else {
            Err(AbstractFileError::XmlUndeclared)
        }
    }

    /// Read a vehicle from text.
    ///
    /// # Errors
    /// as [`Vehicle::from_events`] for the text's events.
    pub fn from_string(xml_text: &str) -> (r: Result<Vehicle, AbstractFileError>)
        ensures
            match r {
                Ok(v) => exists|evs: Seq<XmlEvent>| spec_vehicle(evs) is Ok && v@ == finish_vehicle(#[trigger] spec_vehicle(evs)->Ok_0),
                Err(e) => e == AbstractFileError::XmlParseError
                    || exists|evs: Seq<XmlEvent>| spec_vehicle(evs) == Err::<VehicleView, AbstractFileError>(e),
            },
    {
        let evs = crate::xml::events_of(xml_text)?;
        Vehicle::from_events(&evs)
    }
}

/// Does a tag at depth 1 offer colors?
fn is_color(n: &str) -> (r: bool)
    ensures
        r == is_color_tag(n@),
{
    let c = to_chars(n);
    let p = to_chars("designColorConfigurations");
    str_eq(n, "baseMaterialConfigurations") || str_eq(n, "baseColorConfigurations")
        || str_eq(n, "designMaterialConfigurations") || str_eq(n, "designMaterial2Configurations")
        || str_eq(n, "designMaterial3Configurations") || starts_with(c.as_slice(), p.as_slice())
}

} // verus!
