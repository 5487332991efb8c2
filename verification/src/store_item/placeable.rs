//! Placeable store items: sorting, animals, storage and productions.
//!
//! Production costs, cycles and boost factors are decimal numbers; they are
//! kept as the text the file gives (with the unit the rate is given in),
//! for the caller to read as numbers.
use vstd::prelude::*;
use crate::collections::{StrMap, map_insert, lookup};
use crate::errors::AbstractFileError;
use crate::files::{PathType, spec_unwrap_base_path, path_with_extension};
use crate::savegame::{end_of_document, to_owned_str};
use crate::text::{to_chars, from_chars, lower_seq, to_lower, str_eq, unsigned_or_zero, unsigned_or_zero_exec};
use crate::xml::{XmlEvent, XmlTag, tag_attr, get_attribute, opt_chars, skip_end, skip_ok, skip_to_end,
    lemma_skip_end_bounds, tag_is};
use super::Capability;
use super::words::{words, split_words, sort_by_key, sort_entries, keyed};

verus! {

// MARK: types

/// Object storage types
#[derive(Debug, Clone, Copy, PartialEq, Eq, Structural)]
pub enum ObjectStorage {
    /// Bales
    Bales,
    /// Pallets
    Pallets,
    /// Bales and Pallets
    Both,
}

/// Storage - objects or fill
#[derive(Debug, PartialEq, Eq)]
pub struct Storage {
    /// This is an object storage
    pub is_object: Option<ObjectStorage>,
    /// capacity
    pub capacity: u32,
    /// fill categories
    pub categories: Vec<String>,
    /// fill types
    pub types: Vec<String>,
}

/// A storage, as plain values.
pub struct StorageView {
    /// object storage kind
    pub is_object: Option<ObjectStorage>,
    /// capacity
    pub capacity: u32,
    /// fill categories
    pub categories: Seq<Seq<char>>,
    /// fill types
    pub types: Seq<Seq<char>>,
}

impl View for Storage {
    type V = StorageView;

    open spec fn view(&self) -> StorageView {
        StorageView {
            is_object: self.is_object,
            capacity: self.capacity,
            categories: self.categories@.map_values(|s: String| s@),
            types: self.types@.map_values(|s: String| s@),
        }
    }
}

/// production ingredient type
#[derive(Debug, PartialEq, Eq)]
pub struct Ingredient {
    /// quantity
    pub quantity: u32,
    /// boost factor, as the file gives it (boosts only)
    pub factor: Option<String>,
    /// fill type
    pub fill_type: String,
}

/// An ingredient, as plain values.
pub struct IngredientView {
    /// quantity
    pub quantity: u32,
    /// boost factor text
    pub factor: Option<Seq<char>>,
    /// fill type
    pub fill_type: Seq<char>,
}

impl View for Ingredient {
    type V = IngredientView;

    open spec fn view(&self) -> IngredientView {
        IngredientView { quantity: self.quantity, factor: opt_chars(self.factor), fill_type: self.fill_type@ }
    }
}

/// The unit a production rate is given in.
#[derive(Debug, Clone, Copy, PartialEq, Eq, Structural)]
pub enum Rate {
    /// per active hour
    PerHour,
    /// per active minute
    PerMinute,
    /// per active month
    PerMonth,
}

/// Placeable production record
#[derive(Debug, PartialEq, Eq)]
pub struct Production {
    /// list of boosts
    pub boosts: Vec<Ingredient>,
    /// cost, as the file gives it, and its unit (`None`: 1 per hour)
    pub cost: Option<(String, Rate)>,
    /// cycles, as the file gives them, and their unit (`None`: 1 per hour)
    pub cycles: Option<(String, Rate)>,
    /// name of production
    pub name: String,
    /// output types - multiples are AND
    pub output: Vec<Ingredient>,
    /// name parameters (if used)
    pub params: Option<Vec<String>>,
    /// production recipe - items on root level are AND, items on second level are OR
    pub recipe: Vec<Vec<Ingredient>>,
}

/// A production, as plain values.
pub struct ProductionView {
    /// boosts
    pub boosts: Seq<IngredientView>,
    /// cost text and unit
    pub cost: Option<(Seq<char>, Rate)>,
    /// cycles text and unit
    pub cycles: Option<(Seq<char>, Rate)>,
    /// name
    pub name: Seq<char>,
    /// outputs
    pub output: Seq<IngredientView>,
    /// name parameters
    pub params: Option<Seq<Seq<char>>>,
    /// recipe
    pub recipe: Seq<Seq<IngredientView>>,
}

/// Ingredients as plain values.
pub open spec fn ingredients(v: Seq<Ingredient>) -> Seq<IngredientView> {
    v.map_values(|i: Ingredient| i@)
}

/// A rate as plain values.
pub open spec fn rate_view(r: Option<(String, Rate)>) -> Option<(Seq<char>, Rate)> {
    match r {
        Some((t, u)) => Some((t@, u)),
        None => None,
    }
}

/// Storage lines as plain values.
pub open spec fn storages(v: Seq<Storage>) -> Seq<StorageView> {
    v.map_values(|s: Storage| s@)
}

/// Productions as plain values.
pub open spec fn prods(v: Seq<Production>) -> Seq<ProductionView> {
    v.map_values(|p: Production| p@)
}

/// Texts as plain values.
pub open spec fn strs(v: Seq<String>) -> Seq<Seq<char>> {
    v.map_values(|s: String| s@)
}

impl View for Production {
    type V = ProductionView;

    open spec fn view(&self) -> ProductionView {
        ProductionView {
            boosts: ingredients(self.boosts@),
            cost: rate_view(self.cost),
            cycles: rate_view(self.cycles),
            name: self.name@,
            output: ingredients(self.output@),
            params: match self.params { Some(p) => Some(strs(p@)), None => None },
            recipe: self.recipe@.map_values(|r: Vec<Ingredient>| ingredients(r@)),
        }
    }
}

/// Placeable sorting data
#[derive(Debug)]
pub struct Sorting {
    /// category
    pub category: Option<String>,
    /// functions
    pub functions: Vec<String>,
    /// has color choices
    pub has_color: Capability,
    /// Has lighting
    pub has_lights: Capability,
    /// income generated per hour
    pub income_per_hour: u32,
    /// name of placeable
    pub name: Option<String>,
    /// price
    pub price: Option<u32>,
    /// type name
    pub type_label: Option<String>,
    /// show in store
    pub show_in_store: bool,
}

/// Husbandry data
#[derive(Debug)]
pub struct Animals {
    /// honey per day in liters
    pub beehive_per_day: Option<u32>,
    /// working radius in meters
    pub beehive_radius: Option<u32>,
    /// number of animals
    pub husbandry_count: Option<u32>,
    /// type of husbandry
    pub husbandry_type: Option<String>,
    /// food capacity
    pub husbandry_food: Option<u32>,
}

/// Placeable storeItem record
#[derive(Debug)]
pub struct Placeable {
    /// path to base game icon
    pub icon_base: Option<String>,
    /// path to local icon
    pub icon_file: Option<String>,
    /// icon data
    pub icon_data: Option<String>,
    /// beehive and husbandry
    pub animals: Animals,
    /// File is a sub of a different item
    pub parent_item: Option<String>,
    /// production list
    pub productions: Vec<Production>,
    /// show in store
    pub show_in_store: bool,
    /// placeable sorting information
    pub sorting: Sorting,
    /// silos and object storage
    pub storage: Vec<Storage>,
}

/// A placeable, as plain values.
pub struct PlaceView {
    /// base game icon
    pub icon_base: Option<Seq<char>>,
    /// local icon
    pub icon_file: Option<Seq<char>>,
    /// icon data
    pub icon_data: Option<Seq<char>>,
    /// honey per day
    pub beehive_per_day: Option<u32>,
    /// beehive radius
    pub beehive_radius: Option<u32>,
    /// number of animals
    pub husbandry_count: Option<u32>,
    /// husbandry type
    pub husbandry_type: Option<Seq<char>>,
    /// food capacity
    pub husbandry_food: Option<u32>,
    /// parent item
    pub parent_item: Option<Seq<char>>,
    /// productions
    pub productions: Seq<ProductionView>,
    /// show in store
    pub show_in_store: bool,
    /// category
    pub category: Option<Seq<char>>,
    /// functions
    pub functions: Seq<Seq<char>>,
    /// color choices
    pub has_color: Capability,
    /// lights
    pub has_lights: Capability,
    /// income per hour
    pub income_per_hour: u32,
    /// name
    pub name: Option<Seq<char>>,
    /// price
    pub price: Option<u32>,
    /// type name
    pub type_label: Option<Seq<char>>,
    /// the sorting's own show in store flag
    pub sorting_show_in_store: bool,
    /// storage
    pub storage: Seq<StorageView>,
}

impl View for Placeable {
    type V = PlaceView;

    open spec fn view(&self) -> PlaceView {
        PlaceView {
            icon_base: opt_chars(self.icon_base),
            icon_file: opt_chars(self.icon_file),
            icon_data: opt_chars(self.icon_data),
            beehive_per_day: self.animals.beehive_per_day,
            beehive_radius: self.animals.beehive_radius,
            husbandry_count: self.animals.husbandry_count,
            husbandry_type: opt_chars(self.animals.husbandry_type),
            husbandry_food: self.animals.husbandry_food,
            parent_item: opt_chars(self.parent_item),
            productions: prods(self.productions@),
            show_in_store: self.show_in_store,
            category: opt_chars(self.sorting.category),
            functions: strs(self.sorting.functions@),
            has_color: self.sorting.has_color,
            has_lights: self.sorting.has_lights,
            income_per_hour: self.sorting.income_per_hour,
            name: opt_chars(self.sorting.name),
            price: self.sorting.price,
            type_label: opt_chars(self.sorting.type_label),
            sorting_show_in_store: self.sorting.show_in_store,
            storage: storages(self.storage@),
        }
    }
}

/// A placeable with nothing read yet: shown in the store.
pub open spec fn empty_place() -> PlaceView {
    PlaceView {
        icon_base: None, icon_file: None, icon_data: None, beehive_per_day: None, beehive_radius: None,
        husbandry_count: None, husbandry_type: None, husbandry_food: None, parent_item: None,
        productions: Seq::empty(), show_in_store: true, category: None, functions: Seq::empty(),
        has_color: Capability::No, has_lights: Capability::No, income_per_hour: 0, name: None, price: None,
        type_label: None, sorting_show_in_store: false, storage: Seq::empty(),
    }
}

// MARK: values

/// An attribute read as a `u32` (0 where it does not parse).
pub open spec fn attr_u32(t: XmlTag, name: Seq<char>) -> Option<u32> {
    match tag_attr(t, name) {
        Some(v) => Some(unsigned_or_zero(v, u32::MAX as nat) as u32),
        None => None,
    }
}

/// A tag's text read as a `u32` (0 where it does not parse).
pub open spec fn text_u32(t: XmlTag) -> Option<u32> {
    match opt_chars(t.inner) {
        Some(v) => Some(unsigned_or_zero(v, u32::MAX as nat) as u32),
        None => None,
    }
}

/// The higher of two numbers.
pub open spec fn max_u32(a: u32, b: u32) -> u32 {
    if a >= b { a } else { b }
}

/// The fill types of an attribute: its words but `unknown`, lower-cased.
pub open spec fn fill_types(ws: Seq<Seq<char>>) -> Seq<Seq<char>>
    decreases ws.len(),
{
    if ws.len() == 0 {
        Seq::empty()
    } else {
        let before = fill_types(ws.drop_last());
        if ws.last() == "unknown"@ { before } else { before.push(lower_seq(ws.last())) }
    }
}

/// Words, lower-cased.
pub open spec fn lower_words(ws: Seq<Seq<char>>) -> Seq<Seq<char>> {
    ws.map_values(|w: Seq<char>| lower_seq(w))
}

/// A storage line (`storage`, `capacity`): kept where its capacity is not 0.
pub open spec fn storage_of(t: XmlTag) -> Option<StorageView> {
    let capacity = match attr_u32(t, "capacity"@) { Some(v) => v, None => 0 };
    let types0 = match tag_attr(t, "fillType"@) { Some(v) => fill_types(words(v)), None => Seq::empty() };
    let types = match tag_attr(t, "fillTypes"@) { Some(v) => fill_types(words(v)), None => types0 };
    let categories = match tag_attr(t, "fillTypeCategories"@) { Some(v) => lower_words(words(v)), None => Seq::empty() };
    if capacity != 0 {
        Some(StorageView { is_object: None, capacity, categories, types })
    } else {
        None
    }
}

/// Add a storage line.
pub open spec fn add_storage(s: Seq<StorageView>, t: XmlTag) -> Seq<StorageView> {
    match storage_of(t) {
        Some(v) => s.push(v),
        None => s,
    }
}

/// An object storage: pallets, bales or both, capacity 250 where not given.
pub open spec fn object_storage_of(t: XmlTag) -> StorageView {
    let pallets = tag_attr(t, "supportsPallets"@) == Some("true"@);
    let bales = tag_attr(t, "supportsBales"@) == Some("true"@);
    StorageView {
        is_object: if pallets && bales {
            Some(ObjectStorage::Both)
        } else if pallets {
            Some(ObjectStorage::Pallets)
        } else if bales {
            Some(ObjectStorage::Bales)
        } else {
            None
        },
        capacity: match attr_u32(t, "capacity"@) { Some(v) => v, None => 250 },
        categories: Seq::empty(),
        types: Seq::empty(),
    }
}

/// The pieces of a text split on `|` (std's `split('|')`).
pub open spec fn bar_run(s: Seq<char>, i: int, cur: Seq<char>, acc: Seq<Seq<char>>) -> Seq<Seq<char>>
    decreases s.len() - i,
{
    if i < 0 || i >= s.len() {
        acc.push(cur)
    } else if s[i] == '|' {
        bar_run(s, i + 1, Seq::empty(), acc.push(cur))
    } else {
        bar_run(s, i + 1, cur.push(s[i]), acc)
    }
}

/// The rate given by the first of three attributes the tag has.
pub open spec fn rate_of(t: XmlTag, hour: Seq<char>, minute: Seq<char>, month: Seq<char>) -> Option<(Seq<char>, Rate)> {
    match tag_attr(t, hour) {
        Some(v) => Some((v, Rate::PerHour)),
        None => match tag_attr(t, minute) {
            Some(v) => Some((v, Rate::PerMinute)),
            None => match tag_attr(t, month) {
                Some(v) => Some((v, Rate::PerMonth)),
                None => None,
            },
        },
    }
}

/// A production as its start tag gives it.
pub open spec fn production_start(t: XmlTag) -> ProductionView {
    ProductionView {
        boosts: Seq::empty(),
        cost: rate_of(t, "costsPerActiveHour"@, "costsPerActiveMinute"@, "costsPerActiveMonth"@),
        cycles: rate_of(t, "cyclesPerHour"@, "cyclesPerMinute"@, "cyclesPerMonth"@),
        name: match tag_attr(t, "name"@) { Some(v) => v, None => "--"@ },
        output: Seq::empty(),
        params: match tag_attr(t, "params"@) { Some(v) => Some(bar_run(v, 0, Seq::empty(), Seq::empty())), None => None },
        recipe: Seq::empty(),
    }
}

/// A production being read, with its mixes (recipe alternatives by mix name).
pub struct ProdAcc {
    /// the production
    pub prod: ProductionView,
    /// mixes, in the order first seen
    pub mixes: Seq<(Seq<char>, Seq<IngredientView>)>,
}

/// An `output` or `input` line of a production.
pub open spec fn production_step(a: ProdAcc, t: XmlTag) -> ProdAcc {
    if t.name@ != "output"@ && t.name@ != "input"@ {
        a
    } else {
        match (tag_attr(t, "fillType"@), attr_u32(t, "amount"@)) {
            (Some(f), Some(quantity)) => {
                let ing = IngredientView { quantity, factor: None, fill_type: lower_seq(f) };
                if t.name@ == "output"@ {
                    ProdAcc { prod: ProductionView { output: a.prod.output.push(ing), ..a.prod }, ..a }
                } else {
                    match tag_attr(t, "mix"@) {
                        None => ProdAcc { prod: ProductionView { recipe: a.prod.recipe.push(seq![ing]), ..a.prod }, ..a },
                        Some(m) => if m == "boost"@ {
                            let boost = IngredientView { quantity, factor: tag_attr(t, "boostfactor"@), fill_type: lower_seq(f) };
                            ProdAcc { prod: ProductionView { boosts: a.prod.boosts.push(boost), ..a.prod }, ..a }
                        } else {
                            let group = match lookup(a.mixes, m) { Some(g) => g, None => Seq::empty() };
                            ProdAcc { mixes: map_insert(a.mixes, m, group.push(ing)), ..a }
                        },
                    }
                }
            },
            _ => a,
        }
    }
}

/// A production finished: its mixes join the recipe, by mix name.
pub open spec fn production_done(a: ProdAcc) -> ProductionView {
    ProductionView {
        recipe: a.prod.recipe + sort_by_key(a.mixes).map_values(|e: (Seq<char>, Seq<IngredientView>)| e.1),
        ..a.prod
    }
}

// MARK: sub-readers

/// Reading a production's lines from event `j` to its end tag; the
/// production and where reading goes on (at the end of the document, or an
/// error, reading stops there).
pub open spec fn production_run(evs: Seq<XmlEvent>, j: int, a: ProdAcc) -> (ProductionView, int)
    decreases evs.len() - j,
{
    if j < 0 || j >= evs.len() {
        (production_done(a), evs.len() as int)
    } else {
        match evs[j] {
            XmlEvent::Error => (production_done(a), j),
            XmlEvent::Eof => (production_done(a), j),
            XmlEvent::End(n) => if n@ == "production"@ {
                (production_done(a), j + 1)
            } else {
                production_run(evs, j + 1, a)
            },
            XmlEvent::Empty(t) => production_run(evs, j + 1, production_step(a, t)),
            _ => production_run(evs, j + 1, a),
        }
    }
}

/// Storage and productions read so far.
pub struct PlaceParts {
    /// storage
    pub storage: Seq<StorageView>,
    /// productions
    pub productions: Seq<ProductionView>,
}

/// Reading a production point from event `j` to its end tag `name`.
pub open spec fn productions_run(evs: Seq<XmlEvent>, j: int, name: Seq<char>, p: PlaceParts) -> (PlaceParts, int)
    decreases evs.len() - j,
{
    if j < 0 || j >= evs.len() {
        (p, evs.len() as int)
    } else {
        match evs[j] {
            XmlEvent::Error => (p, j),
            XmlEvent::Eof => (p, j),
            XmlEvent::End(n) => if n@ == name { (p, j + 1) } else { productions_run(evs, j + 1, name, p) },
            XmlEvent::Empty(t) => if t.name@ == "capacity"@ {
                productions_run(evs, j + 1, name, PlaceParts { storage: add_storage(p.storage, t), ..p })
            } else {
                productions_run(evs, j + 1, name, p)
            },
            XmlEvent::Start(t) => if t.name@ == "production"@ {
                let (prod, k) = production_run(evs, j + 1, ProdAcc { prod: production_start(t), mixes: Seq::empty() });
                if j < k <= evs.len() {
                    productions_run(evs, k, name, PlaceParts { productions: p.productions.push(prod), ..p })
                } else {
                    (PlaceParts { productions: p.productions.push(prod), ..p }, k)
                }
            } else {
                productions_run(evs, j + 1, name, p)
            },
            _ => productions_run(evs, j + 1, name, p),
        }
    }
}

/// Reading a silo from event `j` to its end tag `name`: its storage lines.
pub open spec fn silo_run(evs: Seq<XmlEvent>, j: int, name: Seq<char>, s: Seq<StorageView>) -> (Seq<StorageView>, int)
    decreases evs.len() - j,
{
    if j < 0 || j >= evs.len() {
        (s, evs.len() as int)
    } else {
        match evs[j] {
            XmlEvent::Error => (s, j),
            XmlEvent::Eof => (s, j),
            XmlEvent::End(n) => if n@ == name { (s, j + 1) } else { silo_run(evs, j + 1, name, s) },
            XmlEvent::Empty(t) => if t.name@ == "storage"@ {
                silo_run(evs, j + 1, name, add_storage(s, t))
            } else {
                silo_run(evs, j + 1, name, s)
            },
            _ => silo_run(evs, j + 1, name, s),
        }
    }
}

/// One tag of a husbandry: animals, food or a storage line.
pub open spec fn husbandry_step(p: PlaceView, t: XmlTag) -> PlaceView {
    if t.name@ == "animals"@ {
        PlaceView { husbandry_type: tag_attr(t, "type"@), husbandry_count: attr_u32(t, "maxNumAnimals"@), ..p }
    } else if t.name@ == "food"@ {
        PlaceView { husbandry_food: attr_u32(t, "capacity"@), ..p }
    } else if t.name@ == "capacity"@ {
        PlaceView { storage: add_storage(p.storage, t), ..p }
    } else {
        p
    }
}

/// Reading a husbandry from event `j` to its end tag `name`.
pub open spec fn husbandry_run(evs: Seq<XmlEvent>, j: int, name: Seq<char>, p: PlaceView) -> (PlaceView, int)
    decreases evs.len() - j,
{
    if j < 0 || j >= evs.len() {
        (p, evs.len() as int)
    } else {
        match evs[j] {
            XmlEvent::Error => (p, j),
            XmlEvent::Eof => (p, j),
            XmlEvent::End(n) => if n@ == name { (p, j + 1) } else { husbandry_run(evs, j + 1, name, p) },
            XmlEvent::Empty(t) => husbandry_run(evs, j + 1, name, husbandry_step(p, t)),
            XmlEvent::Start(t) => husbandry_run(evs, j + 1, name, husbandry_step(p, t)),
            _ => husbandry_run(evs, j + 1, name, p),
        }
    }
}

// MARK: placeable

/// A self-closing tag of a placeable: solar panels add income.
pub open spec fn place_self_closing(p: PlaceView, t: XmlTag) -> PlaceView {
    if t.name@ == "solarPanelsConfiguration"@ {
        match attr_u32(t, "incomePerHour"@) {
            Some(v) => PlaceView { income_per_hour: max_u32(p.income_per_hour, v), ..p },
            None => p,
        }
    } else {
        p
    }
}

/// The store image: a base game or a local icon, as a `.dds` file.
pub open spec fn place_image(p: PlaceView, text: Option<Seq<char>>) -> PlaceView {
    match text {
        Some(f) => {
            let (base, path) = spec_unwrap_base_path(f);
            if base {
                PlaceView { icon_base: Some(path_with_extension(path, "dds"@)), ..p }
            } else {
                PlaceView { icon_file: Some(path_with_extension(path, "dds"@)), ..p }
            }
        },
        None => p,
    }
}

/// Reading goes on after a sub-reader, where it moved forward.
pub open spec fn continue_place(evs: Seq<XmlEvent>, i: int, k: int, depth: int, found: bool, p: PlaceView)
    -> Result<PlaceView, AbstractFileError>
    decreases evs.len() - i, 0int,
{
    if i < k <= evs.len() { place_run(evs, k, depth, found, p) } else { Err(AbstractFileError::XmlParseError) }
}

/// Reading goes on where a sub-reader stopped.
pub proof fn lemma_continue_place(evs: Seq<XmlEvent>, i: int, k: int, depth: int, found: bool, p: PlaceView)
    requires
        i < k <= evs.len(),
    ensures
        continue_place(evs, i, k, depth, found, p) == place_run(evs, k, depth, found, p),
{
}

/// Reading a placeable from event `i` on, with `depth` open tags and
/// `found` telling whether the declaration was seen.
pub open spec fn place_run(evs: Seq<XmlEvent>, i: int, depth: int, found: bool, p: PlaceView) -> Result<PlaceView, AbstractFileError>
    decreases evs.len() - i, 1int,
{
    if i < 0 || i >= evs.len() {
        end_of_document(found, p)
    } else {
        match evs[i] {
            XmlEvent::Error => Err(AbstractFileError::XmlParseError),
            XmlEvent::Decl => place_run(evs, i + 1, depth, true, p),
            XmlEvent::Eof => end_of_document(found, p),
            XmlEvent::End(_) => place_run(evs, i + 1, depth - 1, found, p),
            XmlEvent::Empty(t) => place_run(evs, i + 1, depth, found, place_self_closing(p, t)),
            XmlEvent::Start(t) => {
                proof { lemma_skip_end_bounds(evs, i + 1, t.name@, 0); }
                let after = skip_end(evs, i + 1, t.name@, 0);
                let slurped = skip_ok(evs, i + 1, t.name@, 0);
                let text = opt_chars(t.inner);
                let n = t.name@;
                if n == "placeable"@ && depth == 0 {
                    place_run(evs, i + 1, depth + 1, found, PlaceView { type_label: tag_attr(t, "type"@), ..p })
                } else if depth == 0 {
                    Err(AbstractFileError::XmlWrongFileType)
                } else if n == "image"@ && depth == 2 {
                    place_run(evs, after, depth, found, place_image(p, text))
                } else if n == "parentFile"@ && depth == 1 {
                    if slurped {
                        place_run(evs, after, depth, found, PlaceView { parent_item: tag_attr(t, "xmlFilename"@), ..p })
                    } else {
                        Err(AbstractFileError::XmlParseError)
                    }
                } else if n == "showInStore"@ && depth == 2 {
                    place_run(evs, after, depth, found,
                        if text == Some("false"@) { PlaceView { show_in_store: false, ..p } } else { p })
                } else if n == "category"@ && depth == 2 {
                    place_run(evs, after, depth, found, PlaceView { category: text, ..p })
                } else if n == "name"@ && depth == 2 {
                    place_run(evs, after, depth, found, PlaceView { name: text, ..p })
                } else if n == "function"@ && depth == 3 {
                    place_run(evs, after, depth, found,
                        match text { Some(v) => PlaceView { functions: p.functions.push(v), ..p }, None => p })
                } else if n == "price"@ && depth == 2 {
                    place_run(evs, after, depth, found, PlaceView { price: text_u32(t), ..p })
                } else if n == "incomePerHour"@ && depth == 1 {
                    place_run(evs, after, depth, found, match text_u32(t) {
                        Some(v) => PlaceView { income_per_hour: max_u32(p.income_per_hour, v), ..p },
                        None => p,
                    })
                } else if n == "solarPanelsConfiguration"@ {
                    place_run(evs, i + 1, depth + 1, found, place_self_closing(p, t))
                } else if (n == "colorConfigurations"@ || n == "colorable"@) && depth == 1 {
                    if slurped {
                        place_run(evs, after, depth, found, PlaceView { has_color: Capability::Yes, ..p })
                    } else {
                        Err(AbstractFileError::XmlParseError)
                    }
                } else if n == "realLights"@ && depth == 2 {
                    if slurped {
                        place_run(evs, after, depth, found, PlaceView { has_lights: Capability::Yes, ..p })
                    } else {
                        Err(AbstractFileError::XmlParseError)
                    }
                } else if n == "husbandry"@ && depth == 1 {
                    let (p2, k) = husbandry_run(evs, i + 1, n, p);
                    continue_place(evs, i, k, depth, found, p2)
                } else if n == "beehive"@ && depth == 1 {
                    if slurped {
                        place_run(evs, after, depth, found, PlaceView {
                            beehive_per_day: attr_u32(t, "litersHoneyPerDay"@),
                            beehive_radius: attr_u32(t, "actionRadius"@),
                            ..p
                        })
                    } else {
                        Err(AbstractFileError::XmlParseError)
                    }
                } else if (n == "siloExtension"@ && depth == 1) || (n == "storages"@ && depth == 2) {
                    let (s2, k) = silo_run(evs, i + 1, n, p.storage);
                    continue_place(evs, i, k, depth, found, PlaceView { storage: s2, ..p })
                } else if n == "productionPoint"@ && depth == 1 {
                    let (parts, k) = productions_run(evs, i + 1, n, PlaceParts { storage: p.storage, productions: p.productions });
                    continue_place(evs, i, k, depth, found, PlaceView { storage: parts.storage, productions: parts.productions, ..p })
                } else if n == "objectStorage"@ && depth == 1 {
                    if slurped {
                        place_run(evs, after, depth, found, PlaceView { storage: p.storage.push(object_storage_of(t)), ..p })
                    } else {
                        Err(AbstractFileError::XmlParseError)
                    }
                } else {
                    place_run(evs, i + 1, depth + 1, found, p)
                }
            },
            _ => place_run(evs, i + 1, depth, found, p),
        }
    }
}

/// A placeable read from its events.
pub open spec fn spec_placeable(evs: Seq<XmlEvent>) -> Result<PlaceView, AbstractFileError> {
    place_run(evs, 0, 0, false, empty_place())
}

// MARK: reading values

/// Read an attribute as a `u32`.
pub fn attr_u32_of(t: &XmlTag, name: &str) -> (r: Option<u32>)
    ensures
        r == attr_u32(*t, name@),
{
    match get_attribute(t, name) {
        Some(v) => {
            let c = to_chars(v.as_str());
            Some(unsigned_or_zero_exec(c.as_slice(), u32::MAX as u64) as u32)
        },
        None => None,
    }
}

/// Read a tag's text as a `u32`.
pub fn text_u32_of(t: &XmlTag) -> (r: Option<u32>)
    ensures
        r == text_u32(*t),
{
    match &t.inner {
        Some(v) => {
            let c = to_chars(v.as_str());
            Some(unsigned_or_zero_exec(c.as_slice(), u32::MAX as u64) as u32)
        },
        None => None,
    }
}

/// The fill types among some words.
fn fill_types_of(ws: &Vec<String>) -> (r: Vec<String>)
    ensures
        strs(r@) == fill_types(strs(ws@)),
{
    let mut r: Vec<String> = Vec::new();
    let mut i: usize = 0;
    assert(strs(ws@).subrange(0, 0) =~= Seq::<Seq<char>>::empty());
    assert(strs(r@) =~= fill_types(strs(ws@).subrange(0, 0)));
    while i < ws.len()
        invariant
            i <= ws@.len(),
            strs(r@) == fill_types(strs(ws@).subrange(0, i as int)),
        decreases ws.len() - i,
    {
        let ghost before = r@;
        assert(strs(ws@).subrange(0, i + 1).drop_last() =~= strs(ws@).subrange(0, i as int));
        assert(strs(ws@).subrange(0, i + 1).last() == ws@[i as int]@);
        proof { reveal_strlit("unknown"); }
        if !str_eq(ws[i].as_str(), "unknown") {
            let c = to_chars(ws[i].as_str());
            let l = to_lower(c.as_slice());
            r.push(from_chars(l.as_slice()));
            assert(strs(r@) =~= strs(before).push(lower_seq(ws@[i as int]@)));
        }
        i = i + 1;
    }
    assert(strs(ws@).subrange(0, ws@.len() as int) =~= strs(ws@));
    r
}

/// Some words, lower-cased.
fn lower_words_of(ws: &Vec<String>) -> (r: Vec<String>)
    ensures
        strs(r@) == lower_words(strs(ws@)),
{
    let mut r: Vec<String> = Vec::new();
    let mut i: usize = 0;
    while i < ws.len()
        invariant
            i <= ws@.len(),
            r@.len() == i,
            forall|j: int| 0 <= j < i ==> (#[trigger] r@[j])@ == lower_seq(ws@[j]@),
        decreases ws.len() - i,
    {
        let c = to_chars(ws[i].as_str());
        let l = to_lower(c.as_slice());
        r.push(from_chars(l.as_slice()));
        i = i + 1;
    }
    assert(strs(r@) =~= lower_words(strs(ws@)));
    r
}

/// Read a storage line.
fn storage_from(t: &XmlTag) -> (r: Option<Storage>)
    ensures
        match r {
            Some(v) => storage_of(*t) == Some(v@),
            None => storage_of(*t) is None,
        },
{
    let capacity = match attr_u32_of(t, "capacity") { Some(v) => v, None => 0 };
    let mut types: Vec<String> = Vec::new();
    if let Some(v) = get_attribute(t, "fillType") {
        types = fill_types_of(&split_words(v.as_str()));
    }
    if let Some(v) = get_attribute(t, "fillTypes") {
        types = fill_types_of(&split_words(v.as_str()));
    }
    let mut categories: Vec<String> = Vec::new();
    if let Some(v) = get_attribute(t, "fillTypeCategories") {
        categories = lower_words_of(&split_words(v.as_str()));
    }
    assert(strs(Seq::<String>::empty()) =~= Seq::<Seq<char>>::empty());
    if capacity != 0 {
        Some(Storage { is_object: None, capacity, categories, types })
    } else {
        None
    }
}

/// Add a storage line to a list.
fn add_storage_to(storage: &mut Vec<Storage>, t: &XmlTag)
    ensures
        storages(final(storage)@) == add_storage(storages(old(storage)@), *t),
{
    let ghost before = storage@;
    if let Some(v) = storage_from(t) {
        storage.push(v);
        assert(storages(storage@) =~= storages(before).push(storage_of(*t).unwrap()));
    }
}

/// Read an object storage.
fn object_storage_from(t: &XmlTag) -> (r: Storage)
    ensures
        r@ == object_storage_of(*t),
{
    proof { reveal_strlit("true"); }
    let pallets = match get_attribute(t, "supportsPallets") { Some(v) => str_eq(v.as_str(), "true"), None => false };
    let bales = match get_attribute(t, "supportsBales") { Some(v) => str_eq(v.as_str(), "true"), None => false };
    let capacity = match attr_u32_of(t, "capacity") { Some(v) => v, None => 250 };
    let is_object = if pallets && bales {
        Some(ObjectStorage::Both)
    } else if pallets {
        Some(ObjectStorage::Pallets)
    } else if bales {
        Some(ObjectStorage::Bales)
    } else {
        None
    };
    let r = Storage { is_object, capacity, categories: Vec::new(), types: Vec::new() };
    assert(r@.categories =~= Seq::<Seq<char>>::empty());
    assert(r@.types =~= Seq::<Seq<char>>::empty());
    r
}

/// Split a text on `|`.
fn split_bar(s: &str) -> (r: Vec<String>)
    ensures
        strs(r@) == bar_run(s@, 0, Seq::empty(), Seq::empty()),
{
    let c = to_chars(s);
    let mut out: Vec<String> = Vec::new();
    let mut cur: Vec<char> = Vec::new();
    let mut i: usize = 0;
    assert(strs(out@) =~= Seq::<Seq<char>>::empty());
    assert(cur@ =~= Seq::<char>::empty());
    while i < c.len()
        invariant
            i <= c@.len(),
            c@ == s@,
            bar_run(c@, i as int, cur@, strs(out@)) == bar_run(s@, 0, Seq::empty(), Seq::empty()),
        decreases c.len() - i,
    {
        if c[i] == '|' {
            let ghost before = out@;
            out.push(from_chars(cur.as_slice()));
            assert(strs(out@) =~= strs(before).push(cur@));
            cur = Vec::new();
            assert(cur@ =~= Seq::<char>::empty());
        } else {
            cur.push(c[i]);
        }
        i = i + 1;
    }
    let ghost before = out@;
    out.push(from_chars(cur.as_slice()));
    assert(strs(out@) =~= strs(before).push(cur@));
    out
}

/// The rate of the first of three attributes the tag has.
fn rate_from(t: &XmlTag, hour: &str, minute: &str, month: &str) -> (r: Option<(String, Rate)>)
    ensures
        rate_view(r) == rate_of(*t, hour@, minute@, month@),
{
    match get_attribute(t, hour) {
        Some(v) => Some((v, Rate::PerHour)),
        None => match get_attribute(t, minute) {
            Some(v) => Some((v, Rate::PerMinute)),
            None => match get_attribute(t, month) {
                Some(v) => Some((v, Rate::PerMonth)),
                None => None,
            },
        },
    }
}

/// Ingredients that are alternatives of one mix.
pub struct Mix(pub Vec<Ingredient>);

impl View for Mix {
    type V = Seq<IngredientView>;

    open spec fn view(&self) -> Seq<IngredientView> {
        ingredients(self.0@)
    }
}

// MARK: reading productions

/// A production with nothing but its start tag read.
fn production_from_start(t: &XmlTag) -> (r: Production)
    ensures
        r@ == production_start(*t),
{
    let name = match get_attribute(t, "name") { Some(v) => v, None => to_owned_str("--") };
    let params = match get_attribute(t, "params") { Some(v) => Some(split_bar(v.as_str())), None => None };
    let r = Production {
        boosts: Vec::new(),
        cost: rate_from(t, "costsPerActiveHour", "costsPerActiveMinute", "costsPerActiveMonth"),
        cycles: rate_from(t, "cyclesPerHour", "cyclesPerMinute", "cyclesPerMonth"),
        name,
        output: Vec::new(),
        params,
        recipe: Vec::new(),
    };
    assert(r@.boosts =~= Seq::<IngredientView>::empty());
    assert(r@.output =~= Seq::<IngredientView>::empty());
    assert(r@.recipe =~= Seq::<Seq<IngredientView>>::empty());
    r
}

/// The mixes, as plain values.
pub open spec fn mixes_view(m: Seq<(String, Mix)>) -> Seq<(Seq<char>, Seq<IngredientView>)> {
    keyed(m)
}

/// Find the mix named `m`.
fn find_mix(mixes: &Vec<(String, Mix)>, m: &str) -> (r: Option<usize>)
    ensures
        match r {
            Some(k) => crate::collections::key_index(mixes_view(mixes@), m@) == Some(k as int) && k < mixes@.len(),
            None => crate::collections::key_index(mixes_view(mixes@), m@) is None,
        },
{
    let ghost m0 = mixes_view(mixes@);
    proof { crate::collections::lemma_key_index(m0, m@); }
    let mut k: usize = 0;
    while k < mixes.len()
        invariant
            k <= mixes@.len(),
            m0 == mixes_view(mixes@),
            forall|j: int| 0 <= j < k ==> (#[trigger] m0[j]).0 != m@,
            match crate::collections::key_index(m0, m@) {
                Some(i) => 0 <= i < m0.len() && m0[i].0 == m@ && forall|j: int| 0 <= j < i ==> m0[j].0 != m@,
                None => forall|j: int| 0 <= j < m0.len() ==> m0[j].0 != m@,
            },
        decreases mixes.len() - k,
    {
        assert(m0[k as int].0 == mixes@[k as int].0@);
        if str_eq(mixes[k].0.as_str(), m) {
            return Some(k);
        }
        k = k + 1;
    }
    None
}

/// Apply an `output` or `input` line.
fn production_line(prod: &mut Production, mixes: &mut Vec<(String, Mix)>, t: &XmlTag)
    ensures
        ({
            let a = production_step(ProdAcc { prod: old(prod)@, mixes: mixes_view(old(mixes)@) }, *t);
            final(prod)@ == a.prod && mixes_view(final(mixes)@) == a.mixes
        }),
{
    let is_output = tag_is(t, "output");
    if !is_output && !tag_is(t, "input") {
        return;
    }
    let fill = match get_attribute(t, "fillType") { Some(v) => v, None => { return; } };
    let quantity = match attr_u32_of(t, "amount") { Some(v) => v, None => { return; } };
    let c = to_chars(fill.as_str());
    let l = to_lower(c.as_slice());
    let fill_type = from_chars(l.as_slice());
    let ghost p0 = prod@;
    let ghost ing = IngredientView { quantity, factor: None, fill_type: lower_seq(fill@) };
    if is_output {
        prod.output.push(Ingredient { quantity, factor: None, fill_type });
        assert(prod@.output =~= p0.output.push(ing));
        assert(prod@ == ProductionView { output: p0.output.push(ing), ..p0 });
        return;
    }
    proof { reveal_strlit("boost"); }
    match get_attribute(t, "mix") {
        None => {
            let ghost r0 = prod.recipe@;
            let one = vec![Ingredient { quantity, factor: None, fill_type }];
            assert(ingredients(one@) =~= seq![ing]);
            prod.recipe.push(one);
            assert(prod@.recipe =~= p0.recipe.push(seq![ing]));
        },
        Some(m) => {
            if str_eq(m.as_str(), "boost") {
                let factor = get_attribute(t, "boostfactor");
                prod.boosts.push(Ingredient { quantity, factor, fill_type });
                assert(prod@.boosts =~= p0.boosts.push(IngredientView { quantity, factor: tag_attr(*t, "boostfactor"@), fill_type: lower_seq(fill@) }));
            } else {
                let ghost m0 = mixes_view(mixes@);
                let at = find_mix(mixes, m.as_str());
                match at {
                    Some(k) => {
                        proof { crate::collections::lemma_key_index(m0, m@); }
                        let ghost old_mixes = mixes@;
                        let (key, mut group) = mixes.remove(k);
                        assert(old_mixes[k as int] == (key, group));
                        assert(key@ == m@);
                        let ghost g0 = group@;
                        assert(g0 == m0[k as int].1);
                        group.0.push(Ingredient { quantity, factor: None, fill_type });
                        assert(group@ =~= g0.push(ing));
                        mixes.insert(k, (key, group));
                        assert(mixes@ =~= old_mixes.update(k as int, (key, group)));
                        assert(mixes_view(mixes@) =~= m0.update(k as int, (m@, g0.push(ing))));
                        assert(mixes_view(mixes@) =~= map_insert(m0, m@, g0.push(ing)));
                    },
                    None => {
                        let group = Mix(vec![Ingredient { quantity, factor: None, fill_type }]);
                        assert(group@ =~= Seq::<IngredientView>::empty().push(ing));
                        mixes.push((m, group));
                        assert(mixes_view(mixes@) =~= map_insert(m0, m@, Seq::<IngredientView>::empty().push(ing)));
                    },
                }
            }
        },
    }
}

/// Finish a production: its mixes join the recipe, by mix name.
fn production_finish(prod: &mut Production, mixes: Vec<(String, Mix)>)
    ensures
        final(prod)@ == production_done(ProdAcc { prod: old(prod)@, mixes: mixes_view(mixes@) }),
{
    let ghost p0 = prod@;
    let sorted = sort_entries(mixes);
    let ghost sv = keyed(sorted@);
    let n_exec = sorted.len();
    let ghost n = sv.len();
    let mut rest = sorted;
    let mut taken: usize = 0;
    assert(keyed(rest@) =~= sv.subrange(0, n as int));
    assert(sv.subrange(0, 0).map_values(|e: (Seq<char>, Seq<IngredientView>)| e.1) =~= Seq::<Seq<IngredientView>>::empty());
    assert(prod@.recipe =~= p0.recipe + sv.subrange(0, 0).map_values(|e: (Seq<char>, Seq<IngredientView>)| e.1));
    while rest.len() > 0
        invariant
            taken <= n,
            n == n_exec,
            sv.len() == n,
            rest@.len() == n - taken,
            keyed(rest@) == sv.subrange(taken as int, n as int),
            prod@ == (ProductionView {
                recipe: p0.recipe + sv.subrange(0, taken as int).map_values(|e: (Seq<char>, Seq<IngredientView>)| e.1),
                ..p0
            }),
        decreases rest.len(),
    {
        let ghost rest0 = rest@;
        let (key, group) = rest.remove(0);
        assert(keyed(rest0)[0] == sv[taken as int]);
        assert(rest0[0] == (key, group));
        assert(group@ == sv[taken as int].1);
        let ghost rv0 = prod@.recipe;
        prod.recipe.push(group.0);
        assert(prod@.recipe =~= rv0.push(sv[taken as int].1));
        assert(sv.subrange(0, taken + 1).map_values(|e: (Seq<char>, Seq<IngredientView>)| e.1)
            =~= sv.subrange(0, taken as int).map_values(|e: (Seq<char>, Seq<IngredientView>)| e.1).push(sv[taken as int].1));
        assert(prod@.recipe =~= p0.recipe + sv.subrange(0, taken + 1).map_values(|e: (Seq<char>, Seq<IngredientView>)| e.1));
        assert forall|x: int| 0 <= x < rest@.len() implies #[trigger] keyed(rest@)[x] == sv.subrange(taken + 1, n as int)[x] by {
            assert(rest@[x] == rest0[x + 1]);
            assert(keyed(rest0)[x + 1] == sv.subrange(taken as int, n as int)[x + 1]);
        }
        assert(keyed(rest@) =~= sv.subrange(taken + 1, n as int));
        taken = taken + 1;
    }
    assert(sv.subrange(0, n as int) =~= sv);
}

/// Read a production from event `j` to its end tag.
fn read_production(evs: &Vec<XmlEvent>, j: usize, t: &XmlTag) -> (r: (Production, usize))
    requires
        j <= evs@.len(),
    ensures
        (r.0@, r.1 as int) == production_run(evs@, j as int, ProdAcc { prod: production_start(*t), mixes: Seq::empty() }),
        j <= r.1 <= evs@.len(),
{
    let mut prod = production_from_start(t);
    let mut mixes: Vec<(String, Mix)> = Vec::new();
    assert(mixes_view(mixes@) =~= Seq::<(Seq<char>, Seq<IngredientView>)>::empty());
    let mut k: usize = j;
    while k < evs.len()
        invariant
            j <= k <= evs@.len(),
            production_run(evs@, k as int, ProdAcc { prod: prod@, mixes: mixes_view(mixes@) })
                == production_run(evs@, j as int, ProdAcc { prod: production_start(*t), mixes: Seq::empty() }),
        decreases evs.len() - k,
    {
        match &evs[k] {
            XmlEvent::Error | XmlEvent::Eof => {
                production_finish(&mut prod, mixes);
                return (prod, k);
            },
            XmlEvent::End(n) => {
                if str_eq(n.as_str(), "production") {
                    production_finish(&mut prod, mixes);
                    return (prod, k + 1);
                }
            },
            XmlEvent::Empty(e) => {
                production_line(&mut prod, &mut mixes, e);
            },
            _ => {},
        }
        k = k + 1;
    }
    production_finish(&mut prod, mixes);
    (prod, k)
}

/// Read a production point from event `j` to its end tag `name`.
fn read_productions(evs: &Vec<XmlEvent>, j: usize, name: &str, storage: &mut Vec<Storage>, productions: &mut Vec<Production>) -> (r: usize)
    requires
        j <= evs@.len(),
    ensures
        ({
            let (parts, k) = productions_run(evs@, j as int, name@, PlaceParts {
                storage: storages(old(storage)@),
                productions: prods(old(productions)@),
            });
            &&& r as int == k
            &&& storages(final(storage)@) == parts.storage
            &&& prods(final(productions)@) == parts.productions
        }),
        j <= r <= evs@.len(),
{
    let mut k: usize = j;
    while k < evs.len()
        invariant
            j <= k <= evs@.len(),
            productions_run(evs@, k as int, name@, PlaceParts {
                storage: storages(storage@),
                productions: prods(productions@),
            }) == productions_run(evs@, j as int, name@, PlaceParts {
                storage: storages(old(storage)@),
                productions: prods(old(productions)@),
            }),
        decreases evs.len() - k,
    {
        match &evs[k] {
            XmlEvent::Error | XmlEvent::Eof => {
                return k;
            },
            XmlEvent::End(n) => {
                if str_eq(n.as_str(), name) {
                    return k + 1;
                }
            },
            XmlEvent::Empty(e) => {
                if tag_is(e, "capacity") {
                    add_storage_to(storage, e);
                }
            },
            XmlEvent::Start(e) => {
                if tag_is(e, "production") {
                    let (prod, next) = read_production(evs, k + 1, e);
                    let ghost before = productions@;
                    productions.push(prod);
                    assert(prods(productions@) =~= prods(before).push(prod@));
                    if next <= k {
                        return next;
                    }
                    k = next;
                    continue;
                }
            },
            _ => {},
        }
        k = k + 1;
    }
    k
}

/// Read a silo from event `j` to its end tag `name`.
fn read_silo(evs: &Vec<XmlEvent>, j: usize, name: &str, storage: &mut Vec<Storage>) -> (r: usize)
    requires
        j <= evs@.len(),
    ensures
        (storages(final(storage)@), r as int)
            == silo_run(evs@, j as int, name@, storages(old(storage)@)),
        j <= r <= evs@.len(),
{
    let mut k: usize = j;
    while k < evs.len()
        invariant
            j <= k <= evs@.len(),
            silo_run(evs@, k as int, name@, storages(storage@)) == silo_run(evs@, j as int, name@, storages(old(storage)@)),
        decreases evs.len() - k,
    {
        match &evs[k] {
            XmlEvent::Error | XmlEvent::Eof => {
                assert(silo_run(evs@, k as int, name@, storages(storage@)) == (storages(storage@), k as int));
                return k;
            },
            XmlEvent::End(n) => {
                if str_eq(n.as_str(), name) {
                    return k + 1;
                }
            },
            XmlEvent::Empty(e) => {
                if tag_is(e, "storage") {
                    add_storage_to(storage, e);
                }
            },
            _ => {},
        }
        k = k + 1;
    }
    k
}

impl Placeable {
    /// A placeable with nothing read yet.
    pub fn new() -> (r: Placeable)
        ensures
            r@ == empty_place(),
    {
        let r = Placeable {
            icon_base: None,
            icon_file: None,
            icon_data: None,
            animals: Animals { beehive_per_day: None, beehive_radius: None, husbandry_count: None, husbandry_type: None, husbandry_food: None },
            parent_item: None,
            productions: Vec::new(),
            show_in_store: true,
            sorting: Sorting {
                category: None, functions: Vec::new(), has_color: Capability::No, has_lights: Capability::No,
                income_per_hour: 0, name: None, price: None, type_label: None, show_in_store: false,
            },
            storage: Vec::new(),
        };
        assert(r@.productions =~= Seq::<ProductionView>::empty());
        assert(r@.functions =~= Seq::<Seq<char>>::empty());
        assert(r@.storage =~= Seq::<StorageView>::empty());
        r
    }

    /// Apply a husbandry tag.
    fn husbandry_tag(&mut self, t: &XmlTag)
        ensures
            final(self)@ == husbandry_step(old(self)@, *t),
    {
        if tag_is(t, "animals") {
            self.animals.husbandry_type = get_attribute(t, "type");
            self.animals.husbandry_count = attr_u32_of(t, "maxNumAnimals");
        } else if tag_is(t, "food") {
            self.animals.husbandry_food = attr_u32_of(t, "capacity");
        } else if tag_is(t, "capacity") {
            add_storage_to(&mut self.storage, t);
        }
    }

    /// Read a husbandry from event `j` to its end tag `name`.
    fn read_husbandry(&mut self, evs: &Vec<XmlEvent>, j: usize, name: &str) -> (r: usize)
        requires
            j <= evs@.len(),
        ensures
            (final(self)@, r as int) == husbandry_run(evs@, j as int, name@, old(self)@),
            j <= r <= evs@.len(),
    {
        let mut k: usize = j;
        while k < evs.len()
            invariant
                j <= k <= evs@.len(),
                husbandry_run(evs@, k as int, name@, self@) == husbandry_run(evs@, j as int, name@, old(self)@),
            decreases evs.len() - k,
        {
            match &evs[k] {
                XmlEvent::Error | XmlEvent::Eof => {
                    return k;
                },
                XmlEvent::End(n) => {
                    if str_eq(n.as_str(), name) {
                        return k + 1;
                    }
                },
                XmlEvent::Empty(e) | XmlEvent::Start(e) => {
                    self.husbandry_tag(e);
                },
                _ => {},
            }
            k = k + 1;
        }
        k
    }

    /// Apply a self-closing tag.
    fn self_closing(&mut self, t: &XmlTag)
        ensures
            final(self)@ == place_self_closing(old(self)@, *t),
    {
        if tag_is(t, "solarPanelsConfiguration") {
            if let Some(v) = attr_u32_of(t, "incomePerHour") {
                if v > self.sorting.income_per_hour {
                    self.sorting.income_per_hour = v;
                }
            }
        }
    }

    /// Apply the store image.
    fn image(&mut self, t: &XmlTag)
        ensures
            final(self)@ == place_image(old(self)@, opt_chars(t.inner)),
    {
        if let Some(f) = &t.inner {
            let path = PathType::unwrap_base_path(f.as_str());
            match &path {
                PathType::Base(_) => { self.icon_base = Some(path.to_dds()); },
                PathType::Local(_) => { self.icon_file = Some(path.to_dds()); },
            }
        }
    }

    /// Read a silo from event `j` to its end tag `name`.
    fn read_silo_into(&mut self, evs: &Vec<XmlEvent>, j: usize, name: &str) -> (r: usize)
        requires
            j <= evs@.len(),
        ensures
            ({
                let (s2, k) = silo_run(evs@, j as int, name@, old(self)@.storage);
                r as int == k && final(self)@ == (PlaceView { storage: s2, ..old(self)@ })
            }),
            j <= r <= evs@.len(),
    {
        let mut storage = Vec::new();
        std::mem::swap(&mut storage, &mut self.storage);
        let k = read_silo(evs, j, name, &mut storage);
        self.storage = storage;
        k
    }

    /// Read a production point from event `j` to its end tag `name`.
    fn read_productions_into(&mut self, evs: &Vec<XmlEvent>, j: usize, name: &str) -> (r: usize)
        requires
            j <= evs@.len(),
        ensures
            ({
                let (parts, k) = productions_run(evs@, j as int, name@,
                    PlaceParts { storage: old(self)@.storage, productions: old(self)@.productions });
                r as int == k && final(self)@ == (PlaceView { storage: parts.storage, productions: parts.productions, ..old(self)@ })
            }),
            j <= r <= evs@.len(),
    {
        let mut storage = Vec::new();
        std::mem::swap(&mut storage, &mut self.storage);
        let mut productions = Vec::new();
        std::mem::swap(&mut productions, &mut self.productions);
        let k = read_productions(evs, j, name, &mut storage, &mut productions);
        self.storage = storage;
        self.productions = productions;
        k
    }

    /// Handle the start tag `t` at event `i`, at `depth`: where reading
    /// goes on, and at which depth.
    fn start_tag(&mut self, evs: &Vec<XmlEvent>, i: usize, t: &XmlTag, depth: i64, found: bool) -> (r: Result<(usize, i64), AbstractFileError>)
        requires
            i < evs.len(),
            evs@[i as int] == XmlEvent::Start(*t),
            i64::MIN < depth < i64::MAX,
        ensures
            match r {
                Ok((k, nd)) => i < k <= evs@.len() && (nd == depth || nd == depth + 1)
                    && place_run(evs@, i as int, depth as int, found, old(self)@) == place_run(evs@, k as int, nd as int, found, final(self)@),
                Err(e) => place_run(evs@, i as int, depth as int, found, old(self)@) == Err::<PlaceView, AbstractFileError>(e),
            },
    {
        proof { lemma_skip_end_bounds(evs@, i + 1, t.name@, 0); }
        let (after, slurped) = skip_to_end(evs, i + 1, t.name.as_str());
        let ghost p0 = self@;
        proof { reveal_strlit("false"); }
        if tag_is(t, "placeable") && depth == 0 {
            self.sorting.type_label = get_attribute(t, "type");
            Ok((i + 1, depth + 1))
        } else if depth == 0 {
            Err(AbstractFileError::XmlWrongFileType)
        } else if tag_is(t, "image") && depth == 2 {
            self.image(t);
            Ok((after, depth))
        } else if tag_is(t, "parentFile") && depth == 1 {
            if !slurped {
                return Err(AbstractFileError::XmlParseError);
            }
            self.parent_item = get_attribute(t, "xmlFilename");
            Ok((after, depth))
        } else if tag_is(t, "showInStore") && depth == 2 {
            if let Some(v) = &t.inner {
                if str_eq(v.as_str(), "false") {
                    self.show_in_store = false;
                }
            }
            Ok((after, depth))
        } else if tag_is(t, "category") && depth == 2 {
            self.sorting.category = crate::mod_desc::copy_opt(&t.inner);
            Ok((after, depth))
        } else if tag_is(t, "name") && depth == 2 {
            self.sorting.name = crate::mod_desc::copy_opt(&t.inner);
            Ok((after, depth))
        } else if tag_is(t, "function") && depth == 3 {
            if let Some(v) = &t.inner {
                let ghost f0 = self.sorting.functions@;
                self.sorting.functions.push(v.clone());
                assert(strs(self.sorting.functions@) =~= strs(f0).push(v@));
            }
            Ok((after, depth))
        } else if tag_is(t, "price") && depth == 2 {
            self.sorting.price = text_u32_of(t);
            Ok((after, depth))
        } else if tag_is(t, "incomePerHour") && depth == 1 {
            if let Some(v) = text_u32_of(t) {
                if v > self.sorting.income_per_hour {
                    self.sorting.income_per_hour = v;
                }
            }
            Ok((after, depth))
        } else if tag_is(t, "solarPanelsConfiguration") {
            self.self_closing(t);
            Ok((i + 1, depth + 1))
        } else if (tag_is(t, "colorConfigurations") || tag_is(t, "colorable")) && depth == 1 {
            if !slurped {
                return Err(AbstractFileError::XmlParseError);
            }
            self.sorting.has_color = Capability::Yes;
            Ok((after, depth))
        } else if tag_is(t, "realLights") && depth == 2 {
            if !slurped {
                return Err(AbstractFileError::XmlParseError);
            }
            self.sorting.has_lights = Capability::Yes;
            Ok((after, depth))
        } else if tag_is(t, "husbandry") && depth == 1 {
            let k = self.read_husbandry(evs, i + 1, t.name.as_str());
            if k <= i {
                return Err(AbstractFileError::XmlParseError);
            }
            proof { lemma_continue_place(evs@, i as int, k as int, depth as int, found, self@); }
            Ok((k, depth))
        } else if tag_is(t, "beehive") && depth == 1 {
            if !slurped {
                return Err(AbstractFileError::XmlParseError);
            }
            self.animals.beehive_per_day = attr_u32_of(t, "litersHoneyPerDay");
            self.animals.beehive_radius = attr_u32_of(t, "actionRadius");
            Ok((after, depth))
        } else if (tag_is(t, "siloExtension") && depth == 1) || (tag_is(t, "storages") && depth == 2) {
            let k = self.read_silo_into(evs, i + 1, t.name.as_str());
            if k <= i {
                return Err(AbstractFileError::XmlParseError);
            }
            proof { lemma_continue_place(evs@, i as int, k as int, depth as int, found, self@); }
            Ok((k, depth))
        } else if tag_is(t, "productionPoint") && depth == 1 {
            let k = self.read_productions_into(evs, i + 1, t.name.as_str());
            if k <= i {
                return Err(AbstractFileError::XmlParseError);
            }
            proof { lemma_continue_place(evs@, i as int, k as int, depth as int, found, self@); }
            Ok((k, depth))
        } else if tag_is(t, "objectStorage") && depth == 1 {
            if !slurped {
                return Err(AbstractFileError::XmlParseError);
            }
            let ghost s0 = self.storage@;
            let o = object_storage_from(t);
            self.storage.push(o);
            assert(storages(self.storage@) =~= storages(s0).push(object_storage_of(*t)));
            Ok((after, depth))
        } else {
            Ok((i + 1, depth + 1))
        }
    }

    /// Read a placeable from its XML events.
    ///
    /// # Errors
    /// [`AbstractFileError::XmlParseError`] where the reader fails or a
    /// skipped tag is not closed, [`AbstractFileError::XmlWrongFileType`]
    /// where the root tag is not `<placeable>`,
    /// [`AbstractFileError::XmlUndeclared`] where the text has no declaration.
    pub fn from_events(evs: &Vec<XmlEvent>) -> (r: Result<Placeable, AbstractFileError>)
        requires
            evs@.len() < i64::MAX,
        ensures
            match r {
                Ok(p) => spec_placeable(evs@) == Ok::<PlaceView, AbstractFileError>(p@),
                Err(e) => spec_placeable(evs@) == Err::<PlaceView, AbstractFileError>(e),
            },
    {
        let mut p = Placeable::new();
        let mut i: usize = 0;
        let mut depth: i64 = 0;
        let mut found = false;
        while i < evs.len()
            invariant
                i <= evs@.len(),
                evs@.len() < i64::MAX,
                -(i as int) <= depth <= i,
                place_run(evs@, i as int, depth as int, found, p@) == spec_placeable(evs@),
            decreases evs.len() - i,
        {
            let mut next: usize = i + 1;
            match &evs[i] {
                XmlEvent::Error => { return Err(AbstractFileError::XmlParseError); },
                XmlEvent::Decl => { found = true; },
                XmlEvent::Eof => {
                    return if found { Ok(p) } else { Err(AbstractFileError::XmlUndeclared) };
                },
                XmlEvent::End(_) => { depth = depth - 1; },
                XmlEvent::Empty(t) => { p.self_closing(t); },
                XmlEvent::Start(t) => {
                    let (k, nd) = p.start_tag(evs, i, t, depth, found)?;
                    next = k;
                    depth = nd;
                },
                _ => {},
            }
            i = next;
        }
        if found { Ok(p) } else { Err(AbstractFileError::XmlUndeclared) }
    }

    /// Read a placeable from text.
    ///
    /// # Errors
    /// as [`Placeable::from_events`] for the text's events.
    pub fn from_string(xml_text: &str) -> (r: Result<Placeable, AbstractFileError>)
        ensures
            match r {
                Ok(p) => exists|evs: Seq<XmlEvent>| spec_placeable(evs) == Ok::<PlaceView, AbstractFileError>(p@),
                Err(e) => e == AbstractFileError::XmlParseError
                    || exists|evs: Seq<XmlEvent>| spec_placeable(evs) == Err::<PlaceView, AbstractFileError>(e),
            },
    {
        let evs = crate::xml::events_of(xml_text)?;
        Placeable::from_events(&evs)
    }
}

} // verus!
