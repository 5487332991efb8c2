//! Store items of a mod: vehicles and placeables.
use vstd::prelude::*;
use crate::errors::AbstractFileError;
use crate::files::{AbstractFile, spec_text};
use crate::savegame::end_of_document;
use crate::xml::{XmlEvent, skip_end, skip_ok, skip_to_end, lemma_skip_end_bounds, tag_is, events_of};

pub mod words;
pub mod placeable;
pub mod vehicle;

use placeable::{Placeable, PlaceView, spec_placeable};
use vehicle::{Vehicle, VehicleView, spec_vehicle, finish_vehicle};

verus! {

/// Capability
#[derive(Debug, Clone, Copy, PartialEq, Eq, Structural)]
pub enum Capability {
    /// Has option
    Yes,
    /// Does not have option
    No,
}

/// Known store item types
#[derive(Debug, Clone, Copy, PartialEq, Eq, Structural)]
pub enum StoreItemType {
    /// trap for unknown
    Unknown,
    /// vehicles and implements
    Vehicle,
    /// placables
    Placeable,
}

/// Which kind of store item a document is, from event `i` on, with
/// `depth` open tags: the root tag (`vehicle` or `placeable`) decides, every
/// tag at the top is skipped whole.
pub open spec fn item_type_run(evs: Seq<XmlEvent>, i: int, depth: int, found: bool, ty: StoreItemType)
    -> Result<StoreItemType, AbstractFileError>
    decreases evs.len() - i,
{
    if i < 0 || i >= evs.len() {
        end_of_document(found, ty)
    } else {
        match evs[i] {
            XmlEvent::Error => Err(AbstractFileError::XmlParseError),
            XmlEvent::Decl => item_type_run(evs, i + 1, depth, true, ty),
            XmlEvent::Eof => end_of_document(found, ty),
            XmlEvent::End(_) => item_type_run(evs, i + 1, depth - 1, found, ty),
            XmlEvent::Start(t) => if depth == 0 {
                if skip_ok(evs, i + 1, t.name@, 0) {
                    proof { lemma_skip_end_bounds(evs, i + 1, t.name@, 0); }
                    let ty2 = if t.name@ == "vehicle"@ {
                        StoreItemType::Vehicle
                    } else if t.name@ == "placeable"@ {
                        StoreItemType::Placeable
                    } else {
                        ty
                    };
                    item_type_run(evs, skip_end(evs, i + 1, t.name@, 0), depth, found, ty2)
                } else {
                    Err(AbstractFileError::XmlParseError)
                }
            } else {
                item_type_run(evs, i + 1, depth + 1, found, ty)
            },
            _ => item_type_run(evs, i + 1, depth, found, ty),
        }
    }
}

/// The kind of store item a document is.
pub open spec fn spec_item_type(evs: Seq<XmlEvent>) -> Result<StoreItemType, AbstractFileError> {
    item_type_run(evs, 0, 0, false, StoreItemType::Unknown)
}

/// Find which kind of store item a document is.
pub fn item_type_from_events(evs: &Vec<XmlEvent>) -> (r: Result<StoreItemType, AbstractFileError>)
    requires
        evs@.len() < i64::MAX,
    ensures
        r == spec_item_type(evs@),
{
    let mut ty = StoreItemType::Unknown;
    let mut i: usize = 0;
    let mut depth: i64 = 0;
    let mut found = false;
    while i < evs.len()
        invariant
            i <= evs@.len(),
            evs@.len() < i64::MAX,
            -(i as int) <= depth <= i,
            item_type_run(evs@, i as int, depth as int, found, ty) == spec_item_type(evs@),
        decreases evs.len() - i,
    {
        let mut next: usize = i + 1;
        match &evs[i] {
            XmlEvent::Error => { return Err(AbstractFileError::XmlParseError); },
            XmlEvent::Decl => { found = true; },
            XmlEvent::Eof => {
                return if found { Ok(ty) } else { Err(AbstractFileError::XmlUndeclared) };
            },
            XmlEvent::End(_) => { depth = depth - 1; },
            XmlEvent::Start(t) => {
                if depth == 0 {
                    let (after, ok) = skip_to_end(evs, i + 1, t.name.as_str());
                    if !ok {
                        return Err(AbstractFileError::XmlParseError);
                    }
                    if tag_is(t, "vehicle") {
                        ty = StoreItemType::Vehicle;
                    } else if tag_is(t, "placeable") {
                        ty = StoreItemType::Placeable;
                    }
                    next = after;
                } else {
                    depth = depth + 1;
                }
            },
            _ => {},
        }
        i = next;
    }
    if found { Ok(ty) } else { Err(AbstractFileError::XmlUndeclared) }
}

/// A store item as plain values: its kind, its vehicle and its placeable.
pub type StoreItemView = (StoreItemType, Option<VehicleView>, Option<PlaceView>);

/// Store item definition
#[derive(Debug)]
pub struct StoreItem {
    /// item type
    pub item_type: StoreItemType,
    /// vehicle record
    pub vehicle: Option<Vehicle>,
    /// placable record
    pub placeable: Option<Placeable>,
}

impl View for StoreItem {
    type V = StoreItemView;

    open spec fn view(&self) -> StoreItemView {
        (
            self.item_type,
            match self.vehicle { Some(v) => Some(v@), None => None },
            match self.placeable { Some(p) => Some(p@), None => None },
        )
    }
}

/// The store item a document holds: its kind decides which reader reads it
/// whole; a document that is neither kind is refused.
pub open spec fn spec_store_item(evs: Seq<XmlEvent>) -> Result<StoreItemView, AbstractFileError> {
    match spec_item_type(evs) {
        Err(e) => Err(e),
        Ok(StoreItemType::Unknown) => Err(AbstractFileError::XmlWrongFileType),
        Ok(StoreItemType::Vehicle) => match spec_vehicle(evs) {
            Ok(v) => Ok((StoreItemType::Vehicle, Some(finish_vehicle(v)), None)),
            Err(e) => Err(e),
        },
        Ok(StoreItemType::Placeable) => match spec_placeable(evs) {
            Ok(p) => Ok((StoreItemType::Placeable, None, Some(p))),
            Err(e) => Err(e),
        },
    }
}

impl StoreItem {
    /// Read a store item from its XML events: a vehicle or a placeable is
    /// read whole.
    ///
    /// # Errors
    /// [`AbstractFileError::XmlWrongFileType`] where the document is neither
    /// a vehicle nor a placeable, or as its reader.
    pub fn from_events(evs: &Vec<XmlEvent>) -> (r: Result<StoreItem, AbstractFileError>)
        requires
            evs@.len() < i64::MAX,
        ensures
            match r {
                Ok(item) => spec_store_item(evs@) == Ok::<StoreItemView, AbstractFileError>(item@),
                Err(e) => spec_store_item(evs@) == Err::<StoreItemView, AbstractFileError>(e),
            },
    {
        let ty = item_type_from_events(evs)?;
        match ty {
            StoreItemType::Unknown => Err(AbstractFileError::XmlWrongFileType),
            StoreItemType::Vehicle => {
                let v = Vehicle::from_events(evs)?;
                Ok(StoreItem { item_type: ty, vehicle: Some(v), placeable: None })
            },
            StoreItemType::Placeable => {
                let p = Placeable::from_events(evs)?;
                Ok(StoreItem { item_type: ty, vehicle: None, placeable: Some(p) })
            },
        }
    }

    /// Load the item from an already decoded string
    ///
    /// # Errors
    /// [`AbstractFileError::XmlParseError`] where the reader does not get
    /// through the text, or as [`StoreItem::from_events`].
    pub fn from_string(xml_text: &str) -> (r: Result<StoreItem, AbstractFileError>)
        ensures
            match r {
                Ok(item) => exists|evs: Seq<XmlEvent>| #[trigger] spec_store_item(evs) == Ok::<StoreItemView, AbstractFileError>(item@),
                Err(e) => e == AbstractFileError::XmlParseError
                    || exists|evs: Seq<XmlEvent>| #[trigger] spec_store_item(evs) == Err::<StoreItemView, AbstractFileError>(e),
            },
    {
        let evs = events_of(xml_text)?;
        StoreItem::from_events(&evs)
    }

    /// Read a store item of a mod.
    ///
    /// # Errors
    /// the error reading the file gives, or as [`StoreItem::from_string`].
    pub fn from_abstract_file(mod_file: &AbstractFile, needle: &str) -> (r: Result<StoreItem, AbstractFileError>)
        ensures
            spec_text(*mod_file, needle@) matches Err(e) ==> r == Err::<StoreItem, AbstractFileError>(e),
            match r {
                Ok(item) => exists|evs: Seq<XmlEvent>| #[trigger] spec_store_item(evs) == Ok::<StoreItemView, AbstractFileError>(item@),
                Err(e) => e == AbstractFileError::XmlParseError
                    || (spec_text(*mod_file, needle@) matches Err(e2) && e == e2)
                    || exists|evs: Seq<XmlEvent>| #[trigger] spec_store_item(evs) == Err::<StoreItemView, AbstractFileError>(e),
            },
    {
        let text = mod_file.text(needle)?;
        StoreItem::from_string(text.as_str())
    }
}

} // verus!
