//! Save games: careerSavegame.xml, farms.xml, vehicles.xml and placeables.xml.
use vstd::prelude::*;
use crate::errors::{AbstractFileError, SaveError};
use crate::files::{AbstractFile, spec_text};
use crate::collections::{FarmSet, StrMap, key_index, lookup, map_insert, map_keys, no_dups, set_insert, set_union, lemma_key_index};
use crate::text::{all_digits, digits_value, is_digit, first_index, nat_chars, sub_chars, find_char, to_chars, u64_chars, parse_decimal_trunc, decimal_trunc, from_chars};
use crate::xml::{XmlEvent, opt_chars, tag_attr, get_attribute, XmlTag, attr_or_empty, attr_trunc, attr_usize, get_attribute_or_empty,
    get_attribute_trunc, get_attribute_usize, lemma_skip_end_bounds, skip_end, skip_ok, skip_to_end, tag_is};

verus! {

// MARK: farms.xml

/// Individual farm
#[derive(Debug)]
pub struct Farm {
    /// Name of farm
    pub name: String,
    /// Cash on hand for farm
    pub cash: i64,
    /// Loan amount for farm
    pub loan: i64,
    /// Color index for farm (1-16)
    pub color: usize,
}

/// A farm, as plain values.
pub struct FarmView {
    /// name
    pub name: Seq<char>,
    /// cash
    pub cash: int,
    /// loan
    pub loan: int,
    /// color
    pub color: nat,
}

impl View for Farm {
    type V = FarmView;

    open spec fn view(&self) -> FarmView {
        FarmView { name: self.name@, cash: self.cash as int, loan: self.loan as int, color: self.color as nat }
    }
}

impl Farm {
    /// New with a name
    pub fn new(name: &str) -> (r: Self)
        ensures
            r@ == (FarmView { name: name@, cash: 0, loan: 0, color: 0 }),
    {
        Farm { name: to_owned_str(name), cash: 0, loan: 0, color: 0 }
    }
}

/// A string from a string slice.
pub fn to_owned_str(s: &str) -> (r: String)
    ensures
        r@ == s@,
{
    s.to_owned()
}

/// List of farms
#[derive(Debug)]
pub struct Farms(pub Vec<Farm>);

impl View for Farms {
    type V = Seq<FarmView>;

    open spec fn view(&self) -> Seq<FarmView> {
        self.0@.map_values(|f: Farm| f@)
    }
}

/// The farm a `<farm>` tag describes.
pub open spec fn farm_of(t: XmlTag) -> FarmView {
    FarmView {
        name: attr_or_empty(t, "name"@),
        color: match attr_usize(t, "color"@) { Some(v) => v, None => 0 },
        loan: match attr_trunc(t, "loan"@) { Some(v) => v, None => 0 },
        cash: match attr_trunc(t, "money"@) { Some(v) => v, None => 0 },
    }
}

/// How the end of the event list is answered: the farms, where the document
/// was declared as XML.
pub open spec fn end_of_document<T>(found: bool, acc: T) -> Result<T, AbstractFileError> {
    if found { Ok(acc) } else { Err(AbstractFileError::XmlUndeclared) }
}

/// Reading farms.xml from event `i` on, with `depth` open tags, `found`
/// telling whether the declaration was seen, and the farms read so far.
pub open spec fn farms_run(evs: Seq<XmlEvent>, i: int, depth: int, found: bool, acc: Seq<FarmView>)
    -> Result<Seq<FarmView>, AbstractFileError>
    decreases evs.len() - i,
{
    if i < 0 || i >= evs.len() {
        end_of_document(found, acc)
    } else {
        match evs[i] {
            XmlEvent::Error => Err(AbstractFileError::XmlParseError),
            XmlEvent::Decl => farms_run(evs, i + 1, depth, true, acc),
            XmlEvent::Eof => end_of_document(found, acc),
            XmlEvent::End(_) => farms_run(evs, i + 1, depth - 1, found, acc),
            XmlEvent::Start(t) => if depth == 0 {
                if t.name@ == "farms"@ {
                    farms_run(evs, i + 1, 1, found, acc)
                } else {
                    Err(AbstractFileError::XmlWrongFileType)
                }
            } else if depth == 1 && t.name@ == "farm"@ {
                if skip_ok(evs, i + 1, t.name@, 0) {
                    proof { lemma_skip_end_bounds(evs, i + 1, t.name@, 0); }
                    farms_run(evs, skip_end(evs, i + 1, t.name@, 0), depth, found, acc.push(farm_of(t)))
                } else {
                    Err(AbstractFileError::XmlParseError)
                }
            } else {
                farms_run(evs, i + 1, depth + 1, found, acc)
            },
            _ => farms_run(evs, i + 1, depth, found, acc),
        }
    }
}

/// The farm every farms.xml starts with.
pub open spec fn unowned_farm() -> FarmView {
    FarmView { name: "--unowned--"@, cash: 0, loan: 0, color: 0 }
}

/// Reading farms only adds farms after those read so far.
pub proof fn lemma_farms_keep_first(evs: Seq<XmlEvent>, i: int, depth: int, found: bool, acc: Seq<FarmView>)
    requires
        acc.len() > 0,
    ensures
        farms_run(evs, i, depth, found, acc) matches Ok(r) ==> r.len() > 0 && r[0] == acc[0],
    decreases evs.len() - i,
{
    if 0 <= i < evs.len() {
        match evs[i] {
            XmlEvent::Decl => lemma_farms_keep_first(evs, i + 1, depth, true, acc),
            XmlEvent::End(_) => lemma_farms_keep_first(evs, i + 1, depth - 1, found, acc),
            XmlEvent::Start(t) => if depth == 0 {
                if t.name@ == "farms"@ {
                    lemma_farms_keep_first(evs, i + 1, 1, found, acc);
                }
            } else if depth == 1 && t.name@ == "farm"@ {
                if skip_ok(evs, i + 1, t.name@, 0) {
                    lemma_skip_end_bounds(evs, i + 1, t.name@, 0);
                    lemma_farms_keep_first(evs, skip_end(evs, i + 1, t.name@, 0), depth, found, acc.push(farm_of(t)));
                }
            } else {
                lemma_farms_keep_first(evs, i + 1, depth + 1, found, acc);
            },
            XmlEvent::Error => {},
            XmlEvent::Eof => {},
            _ => lemma_farms_keep_first(evs, i + 1, depth, found, acc),
        }
    }
}

/// farms.xml read from its events: the first farm is always `--unowned--`.
pub open spec fn spec_farms(evs: Seq<XmlEvent>) -> Result<Seq<FarmView>, AbstractFileError> {
    farms_run(evs, 0, 0, false, seq![FarmView { name: "--unowned--"@, cash: 0, loan: 0, color: 0 }])
}

impl Farms {
    /// Read farms.xml from its XML events.
    ///
    /// # Errors
    /// [`AbstractFileError::XmlWrongFileType`] where the root is not `<farms>`,
    /// [`AbstractFileError::XmlParseError`] where the reader fails,
    /// [`AbstractFileError::XmlUndeclared`] without an XML declaration.
    pub fn from_events(evs: &Vec<XmlEvent>) -> (r: Result<Farms, AbstractFileError>)
        requires
            evs@.len() < i64::MAX,
        ensures
            match r {
                Ok(f) => spec_farms(evs@) == Ok::<Seq<FarmView>, AbstractFileError>(f@),
                Err(e) => spec_farms(evs@) == Err::<Seq<FarmView>, AbstractFileError>(e),
            },
    {
        let mut acc: Vec<Farm> = Vec::new();
        acc.push(Farm::new("--unowned--"));
        let mut i: usize = 0;
        let mut depth: i64 = 0;
        let mut found = false;
        assert(acc@.map_values(|f: Farm| f@) =~= seq![FarmView { name: "--unowned--"@, cash: 0, loan: 0, color: 0 }]);
        while i < evs.len()
            invariant
                i <= evs@.len(),
                -(i as int) <= depth <= i,
                evs@.len() < i64::MAX,
                farms_run(evs@, i as int, depth as int, found, acc@.map_values(|f: Farm| f@)) == spec_farms(evs@),
            decreases evs.len() - i,
        {
            match &evs[i] {
                XmlEvent::Error => { return Err(AbstractFileError::XmlParseError); },
                XmlEvent::Decl => { found = true; },
                XmlEvent::Eof => {
                    return if found { Ok(Farms(acc)) } else { Err(AbstractFileError::XmlUndeclared) };
                },
                XmlEvent::End(_) => { depth = depth - 1; },
                XmlEvent::Start(t) => {
                    if depth == 0 {
                        if tag_is(t, "farms") {
                            depth = 1;
                        } else {
                            return Err(AbstractFileError::XmlWrongFileType);
                        }
                    } else if depth == 1 && tag_is(t, "farm") {
                        let (j, ok) = skip_to_end(evs, i + 1, t.name.as_str());
                        if !ok {
                            return Err(AbstractFileError::XmlParseError);
                        }
                        let farm = Farm {
                            name: get_attribute_or_empty(t, "name"),
                            color: match get_attribute_usize(t, "color") { Some(v) => v, None => 0 },
                            loan: match get_attribute_trunc(t, "loan") { Some(v) => v, None => 0 },
                            cash: match get_attribute_trunc(t, "money") { Some(v) => v, None => 0 },
                        };
                        let ghost old_acc = acc@;
                        acc.push(farm);
                        assert(acc@.map_values(|f: Farm| f@) =~= old_acc.map_values(|f: Farm| f@).push(farm_of(*t)));
                        i = j;
                        continue;
                    } else {
                        depth = depth + 1;
                    }
                },
                _ => {},
            }
            i = i + 1;
        }
        if found { Ok(Farms(acc)) } else { Err(AbstractFileError::XmlUndeclared) }
    }
}

} // verus!

verus! {

// MARK: mods

/// Data structure for a savegame mod
#[derive(Debug)]
pub struct Mod {
    /// Mod version from careerSavegame
    pub version: String,
    /// Mod title from careerSavegame
    pub title: String,
    /// List of farms mod is purchased on
    pub farms: FarmSet,
}

/// A save game mod, as plain values.
pub struct ModView {
    /// version
    pub version: Seq<char>,
    /// title
    pub title: Seq<char>,
    /// farm ids
    pub farms: Seq<usize>,
}

impl View for Mod {
    type V = ModView;

    open spec fn view(&self) -> ModView {
        ModView { version: self.version@, title: self.title@, farms: self.farms@ }
    }
}

/// A mod with no version, title or farms.
pub open spec fn empty_mod() -> ModView {
    ModView { version: Seq::empty(), title: Seq::empty(), farms: Seq::empty() }
}

impl Mod {
    /// A mod with no version, title or farms.
    pub fn new() -> (r: Mod)
        ensures
            r@ == empty_mod(),
    {
        let r = Mod { version: String::new(), title: String::new(), farms: FarmSet::new() };
        assert(r.farms@ =~= Seq::<usize>::empty());
        r
    }
}

/// Data structure for savegame mods, by mod name
#[derive(Debug)]
pub struct Mods(pub StrMap<Mod>);

impl View for Mods {
    type V = Seq<(Seq<char>, ModView)>;

    open spec fn view(&self) -> Seq<(Seq<char>, ModView)> {
        self.0@
    }
}

/// Record that mod `name` is used on farm `farm`.
pub open spec fn mods_add_farm(m: Seq<(Seq<char>, ModView)>, name: Seq<char>, farm: usize)
    -> Seq<(Seq<char>, ModView)>
{
    let base = match lookup(m, name) { Some(v) => v, None => empty_mod() };
    map_insert(m, name, ModView { farms: set_insert(base.farms, farm), ..base })
}

/// One mod of another set merged in: a non-empty title or version replaces
/// the one there, farms are added.
pub open spec fn merge_one(m: Seq<(Seq<char>, ModView)>, key: Seq<char>, item: ModView)
    -> Seq<(Seq<char>, ModView)>
{
    let base = match lookup(m, key) { Some(v) => v, None => empty_mod() };
    map_insert(m, key, ModView {
        title: if item.title.len() > 0 { item.title } else { base.title },
        version: if item.version.len() > 0 { item.version } else { base.version },
        farms: set_union(base.farms, item.farms),
    })
}

/// Every mod of `other` merged in, in order.
pub open spec fn merge_all(m: Seq<(Seq<char>, ModView)>, other: Seq<(Seq<char>, ModView)>)
    -> Seq<(Seq<char>, ModView)>
    decreases other.len(),
{
    if other.len() == 0 {
        m
    } else {
        let before = merge_all(m, other.drop_last());
        merge_one(before, other.last().0, other.last().1)
    }
}

/// Values already in a list add nothing to it.
proof fn lemma_union_of_held<T>(a: Seq<T>, b: Seq<T>)
    requires
        forall|i: int| 0 <= i < b.len() ==> a.contains(#[trigger] b[i]),
    ensures
        set_union(a, b) == a,
    decreases b.len(),
{
    if b.len() > 0 {
        lemma_union_of_held(a, b.drop_last());
        assert(a.contains(b[b.len() - 1]));
    }
}

/// Merging nothing leaves the mods as they are; merging the same mod twice
/// gives what merging it once gives.
pub proof fn law_merge(m: Seq<(Seq<char>, ModView)>, key: Seq<char>, item: ModView)
    ensures
        merge_all(m, Seq::empty()) == m,
        merge_one(merge_one(m, key, item), key, item) == merge_one(m, key, item),
{
    let base = match lookup(m, key) { Some(v) => v, None => empty_mod() };
    let once = ModView {
        title: if item.title.len() > 0 { item.title } else { base.title },
        version: if item.version.len() > 0 { item.version } else { base.version },
        farms: set_union(base.farms, item.farms),
    };
    let m1 = map_insert(m, key, once);
    crate::collections::lemma_lookup_insert(m, key, once, key);
    assert(lookup(m1, key) == Some(once));
    assert forall|i: int| 0 <= i < item.farms.len() implies once.farms.contains(#[trigger] item.farms[i]) by {
        crate::collections::lemma_set_union_contains(base.farms, item.farms, item.farms[i]);
        assert(item.farms.contains(item.farms[i]));
    }
    lemma_union_of_held(once.farms, item.farms);
    lemma_key_index(m, key);
    lemma_key_index(m1, key);
    match key_index(m, key) {
        Some(i) => {
            assert(m1 == m.update(i, (key, once)));
            assert(map_insert(m1, key, once) =~= m1);
        },
        None => {
            assert(m1 == m.push((key, once)));
            assert(key_index(m1, key) == Some(m.len() as int));
            assert(map_insert(m1, key, once) =~= m1);
        },
    }
}

/// Merging in a mod the list already holds, as it holds it, changes nothing.
proof fn lemma_merge_held(m: Seq<(Seq<char>, ModView)>, j: int)
    requires
        no_dups(map_keys(m)),
        0 <= j < m.len(),
    ensures
        merge_one(m, m[j].0, m[j].1) == m,
{
    let (k, v) = m[j];
    lemma_key_index(m, k);
    let i = key_index(m, k).unwrap();
    if i != j {
        if i < j { assert(map_keys(m)[i] != map_keys(m)[j]); } else { assert(map_keys(m)[j] != map_keys(m)[i]); }
    }
    assert(lookup(m, k) == Some(v));
    assert forall|x: int| 0 <= x < v.farms.len() implies v.farms.contains(#[trigger] v.farms[x]) by {}
    lemma_union_of_held(v.farms, v.farms);
    let merged = ModView {
        title: if v.title.len() > 0 { v.title } else { v.title },
        version: if v.version.len() > 0 { v.version } else { v.version },
        farms: set_union(v.farms, v.farms),
    };
    assert(merged == v);
    assert(map_insert(m, k, merged) =~= m);
}

/// Merging in mods that are entries of the list changes nothing.
proof fn lemma_merge_all_held(m: Seq<(Seq<char>, ModView)>, o: Seq<(Seq<char>, ModView)>)
    requires
        no_dups(map_keys(m)),
        forall|i: int| 0 <= i < o.len() ==> m.contains(#[trigger] o[i]),
    ensures
        merge_all(m, o) == m,
    decreases o.len(),
{
    if o.len() > 0 {
        lemma_merge_all_held(m, o.drop_last());
        assert(m.contains(o[o.len() - 1]));
        let j = choose|j: int| 0 <= j < m.len() && m[j] == o[o.len() - 1];
        lemma_merge_held(m, j);
    }
}

/// Merging a list of mods, each held once, into itself changes nothing.
pub proof fn law_merge_into_itself(m: Seq<(Seq<char>, ModView)>)
    requires
        no_dups(map_keys(m)),
    ensures
        merge_all(m, m) == m,
{
    assert forall|i: int| 0 <= i < m.len() implies m.contains(#[trigger] m[i]) by {}
    lemma_merge_all_held(m, m);
}

/// Add farms to a farm set, in order.
fn add_farms(set: &mut FarmSet, farms: &FarmSet)
    ensures
        final(set)@ == set_union(old(set)@, farms@),
{
    let mut i: usize = 0;
    while i < farms.items.len()
        invariant
            i <= farms@.len(),
            set@ == set_union(old(set)@, farms@.subrange(0, i as int)),
        decreases farms.items.len() - i,
    {
        assert(farms@.subrange(0, i + 1).drop_last() =~= farms@.subrange(0, i as int));
        set.insert(farms.items[i]);
        i = i + 1;
    }
    assert(farms@.subrange(0, farms@.len() as int) =~= farms@);
}

impl Mods {
    /// An empty set of mods.
    pub fn new() -> (r: Mods)
        ensures
            r@.len() == 0,
    {
        Mods(StrMap::new())
    }

    /// Record that mod `name` is used on farm `farm`.
    pub fn add_farm(&mut self, name: String, farm: usize)
        ensures
            final(self)@ == mods_add_farm(old(self)@, name@, farm),
    {
        proof { lemma_key_index(self@, name@); }
        match self.0.find(name.as_str()) {
            Some(i) => {
                let (k, mut m) = self.0.take_at(i);
                m.farms.insert(farm);
                self.0.put_back(i, (k, m));
                assert(self@ =~= mods_add_farm(old(self)@, name@, farm));
            },
            None => {
                let mut m = Mod::new();
                m.farms.insert(farm);
                assert(m@ == ModView { farms: set_insert(empty_mod().farms, farm), ..empty_mod() });
                self.0.insert(name, m);
            },
        }
    }

    /// Merge one mod in.
    fn merge_in(&mut self, key: &String, item: &Mod)
        ensures
            final(self)@ == merge_one(old(self)@, key@, item@),
    {
        proof { lemma_key_index(self@, key@); }
        let (mut m, at) = match self.0.find(key.as_str()) {
            Some(i) => {
                let (_, m) = self.0.take_at(i);
                (m, Some(i))
            },
            None => (Mod::new(), None),
        };
        let ghost base = m@;
        if !item.title.as_str().is_empty() {
            m.title = item.title.clone();
        }
        if !item.version.as_str().is_empty() {
            m.version = item.version.clone();
        }
        add_farms(&mut m.farms, &item.farms);
        match at {
            Some(i) => {
                self.0.put_back(i, (key.clone(), m));
                assert(self@ =~= merge_one(old(self)@, key@, item@));
            },
            None => {
                self.0.insert(key.clone(), m);
            },
        }
    }

    /// Deep merge another set of mods.
    pub fn deep_merge(&mut self, other: Mods)
        ensures
            final(self)@ == merge_all(old(self)@, other@),
    {
        let mut i: usize = 0;
        while i < other.0.entries.len()
            invariant
                i <= other@.len(),
                other@.len() == other.0.entries@.len(),
                self@ == merge_all(old(self)@, other@.subrange(0, i as int)),
            decreases other.0.entries.len() - i,
        {
            assert(other@.subrange(0, i + 1).drop_last() =~= other@.subrange(0, i as int));
            self.merge_in(&other.0.entries[i].0, &other.0.entries[i].1);
            i = i + 1;
        }
        assert(other@.subrange(0, other@.len() as int) =~= other@);
    }
}

} // verus!

verus! {

/// Where a `<vehicle>` or `<placeable>` tag records its mod on a farm: the
/// mod name and the farm id, where both are there and the id parses.
pub open spec fn item_use(t: XmlTag) -> Option<(Seq<char>, usize)> {
    match (tag_attr(t, "modName"@), tag_attr(t, "farmId"@)) {
        (Some(name), Some(farm)) => match crate::text::unsigned_text_value(farm) {
            Some(f) => if f <= usize::MAX { Some((name, f as usize)) } else { None },
            None => None,
        },
        _ => None,
    }
}

/// Reading vehicles.xml or placeables.xml from event `i` on.
pub open spec fn items_run(evs: Seq<XmlEvent>, i: int, depth: int, found: bool, acc: Seq<(Seq<char>, ModView)>)
    -> Result<Seq<(Seq<char>, ModView)>, AbstractFileError>
    decreases evs.len() - i,
{
    if i < 0 || i >= evs.len() {
        end_of_document(found, acc)
    } else {
        match evs[i] {
            XmlEvent::Error => Err(AbstractFileError::XmlParseError),
            XmlEvent::Decl => items_run(evs, i + 1, depth, true, acc),
            XmlEvent::Eof => end_of_document(found, acc),
            XmlEvent::End(_) => items_run(evs, i + 1, depth - 1, found, acc),
            XmlEvent::Start(t) => if depth == 0 {
                if t.name@ == "vehicles"@ || t.name@ == "placeables"@ {
                    items_run(evs, i + 1, 1, found, acc)
                } else {
                    Err(AbstractFileError::XmlWrongFileType)
                }
            } else if depth == 1 && (t.name@ == "vehicle"@ || t.name@ == "placeable"@) {
                if skip_ok(evs, i + 1, t.name@, 0) {
                    proof { lemma_skip_end_bounds(evs, i + 1, t.name@, 0); }
                    let acc2 = match item_use(t) {
                        Some((name, farm)) => mods_add_farm(acc, name, farm),
                        None => acc,
                    };
                    items_run(evs, skip_end(evs, i + 1, t.name@, 0), depth, found, acc2)
                } else {
                    Err(AbstractFileError::XmlParseError)
                }
            } else {
                items_run(evs, i + 1, depth + 1, found, acc)
            },
            _ => items_run(evs, i + 1, depth, found, acc),
        }
    }
}

/// vehicles.xml or placeables.xml read from its events.
pub open spec fn spec_items(evs: Seq<XmlEvent>) -> Result<Seq<(Seq<char>, ModView)>, AbstractFileError> {
    items_run(evs, 0, 0, false, Seq::empty())
}

impl Mods {
    /// Read vehicles.xml or placeables.xml from its XML events.
    ///
    /// # Errors
    /// [`AbstractFileError::XmlWrongFileType`] where the root is neither
    /// `<vehicles>` nor `<placeables>`, [`AbstractFileError::XmlParseError`]
    /// where the reader fails, [`AbstractFileError::XmlUndeclared`] without
    /// an XML declaration.
    pub fn from_events(evs: &Vec<XmlEvent>) -> (r: Result<Mods, AbstractFileError>)
        requires
            evs@.len() < i64::MAX,
        ensures
            match r {
                Ok(m) => spec_items(evs@) == Ok::<Seq<(Seq<char>, ModView)>, AbstractFileError>(m@),
                Err(e) => spec_items(evs@) == Err::<Seq<(Seq<char>, ModView)>, AbstractFileError>(e),
            },
    {
        let mut acc = Mods::new();
        let mut i: usize = 0;
        let mut depth: i64 = 0;
        let mut found = false;
        assert(acc@ =~= Seq::<(Seq<char>, ModView)>::empty());
        while i < evs.len()
            invariant
                i <= evs@.len(),
                -(i as int) <= depth <= i,
                evs@.len() < i64::MAX,
                items_run(evs@, i as int, depth as int, found, acc@) == spec_items(evs@),
            decreases evs.len() - i,
        {
            match &evs[i] {
                XmlEvent::Error => { return Err(AbstractFileError::XmlParseError); },
                XmlEvent::Decl => { found = true; },
                XmlEvent::Eof => {
                    return if found { Ok(acc) } else { Err(AbstractFileError::XmlUndeclared) };
                },
                XmlEvent::End(_) => { depth = depth - 1; },
                XmlEvent::Start(t) => {
                    if depth == 0 {
                        if tag_is(t, "vehicles") || tag_is(t, "placeables") {
                            depth = 1;
                        } else {
                            return Err(AbstractFileError::XmlWrongFileType);
                        }
                    } else if depth == 1 && (tag_is(t, "vehicle") || tag_is(t, "placeable")) {
                        let (j, ok) = skip_to_end(evs, i + 1, t.name.as_str());
                        if !ok {
                            return Err(AbstractFileError::XmlParseError);
                        }
                        if let Some(name) = get_attribute(t, "modName") {
                            if let Some(farm) = get_attribute(t, "farmId") {
                                let fc = to_chars(farm.as_str());
                                if let Some(f) = crate::text::parse_unsigned(fc.as_slice(), usize::MAX as u64) {
                                    acc.add_farm(name, f as usize);
                                }
                            }
                        }
                        i = j;
                        continue;
                    } else {
                        depth = depth + 1;
                    }
                },
                _ => {},
            }
            i = i + 1;
        }
        if found { Ok(acc) } else { Err(AbstractFileError::XmlUndeclared) }
    }
}

} // verus!

verus! {

// MARK: careerSavegame.xml

/// Save career
#[derive(Debug)]
pub struct Career {
    /// Map mod name (shortname)
    pub map_mod: Option<String>,
    /// Map title
    pub map_title: Option<String>,
    /// Number of mods loaded
    pub mod_count: usize,
    /// List of mods
    pub mods: Mods,
    /// Name of the save
    pub name: Option<String>,
    /// Playtime in hours:minutes, hours is unbound
    pub play_time: Option<String>,
    /// Save date
    pub save_date: Option<String>,
}

/// A save career, as plain values.
pub struct CareerView {
    /// map mod
    pub map_mod: Option<Seq<char>>,
    /// map title
    pub map_title: Option<Seq<char>>,
    /// mod count
    pub mod_count: nat,
    /// mods
    pub mods: Seq<(Seq<char>, ModView)>,
    /// save name
    pub name: Option<Seq<char>>,
    /// play time
    pub play_time: Option<Seq<char>>,
    /// save date
    pub save_date: Option<Seq<char>>,
}

impl View for Career {
    type V = CareerView;

    open spec fn view(&self) -> CareerView {
        CareerView {
            map_mod: opt_chars(self.map_mod),
            map_title: opt_chars(self.map_title),
            mod_count: self.mod_count as nat,
            mods: self.mods@,
            name: opt_chars(self.name),
            play_time: opt_chars(self.play_time),
            save_date: opt_chars(self.save_date),
        }
    }
}

/// A career with nothing read yet.
pub open spec fn empty_career() -> CareerView {
    CareerView {
        map_mod: None, map_title: None, mod_count: 0, mods: Seq::empty(),
        name: None, play_time: None, save_date: None,
    }
}

/// Minutes as `hours:minutes`, minutes with two digits.
pub open spec fn play_time_text(minutes: nat) -> Seq<char> {
    let m = minutes % 60;
    let mm = if m < 10 { seq!['0'] + nat_chars(m) } else { nat_chars(m) };
    nat_chars(minutes / 60) + seq![':'] + mm
}

/// The play time a `<playTime>` text gives: its whole minutes, where it is
/// a non-negative decimal number.
pub open spec fn play_time_of(text: Seq<char>) -> Option<Seq<char>> {
    match decimal_trunc(text) {
        Some(n) => if 0 <= n <= i64::MAX { Some(play_time_text(n as nat)) } else { None },
        None => None,
    }
}

/// The map mod a `<mapId>` text names: the part before the first `.`.
pub open spec fn map_mod_of(text: Seq<char>) -> Seq<char> {
    text.subrange(0, first_index(text, '.'))
}

/// A `<mod>` tag of careerSavegame.xml applied to the career.
pub open spec fn career_mod(c: CareerView, t: XmlTag) -> CareerView {
    match tag_attr(t, "modName"@) {
        Some(name) => CareerView {
            mod_count: c.mod_count + 1,
            mods: map_insert(c.mods, name, ModView {
                title: attr_or_empty(t, "title"@),
                version: attr_or_empty(t, "version"@),
                farms: Seq::empty(),
            }),
            ..c
        },
        None => c,
    }
}

/// A text tag of careerSavegame.xml (at depth 2) applied to the career.
pub open spec fn career_text(c: CareerView, t: XmlTag) -> CareerView {
    let text = opt_chars(t.inner);
    if t.name@ == "mapTitle"@ {
        CareerView { map_title: text, ..c }
    } else if t.name@ == "savegameName"@ {
        CareerView { name: text, ..c }
    } else if t.name@ == "saveDate"@ {
        CareerView { save_date: text, ..c }
    } else if t.name@ == "playTime"@ {
        match text {
            Some(v) => match play_time_of(v) {
                Some(p) => CareerView { play_time: Some(p), ..c },
                None => c,
            },
            None => c,
        }
    } else {
        match text {
            Some(v) => CareerView { map_mod: Some(map_mod_of(v)), ..c },
            None => c,
        }
    }
}

/// Is this one of the text tags careerSavegame.xml holds at depth 2?
pub open spec fn is_career_text_tag(n: Seq<char>) -> bool {
    n == "mapTitle"@ || n == "savegameName"@ || n == "saveDate"@ || n == "playTime"@ || n == "mapId"@
}

/// Reading careerSavegame.xml from event `i` on.
pub open spec fn career_run(evs: Seq<XmlEvent>, i: int, depth: int, found: bool, c: CareerView)
    -> Result<CareerView, AbstractFileError>
    decreases evs.len() - i,
{
    if i < 0 || i >= evs.len() {
        end_of_document(found, c)
    } else {
        match evs[i] {
            XmlEvent::Error => Err(AbstractFileError::XmlParseError),
            XmlEvent::Decl => career_run(evs, i + 1, depth, true, c),
            XmlEvent::Eof => end_of_document(found, c),
            XmlEvent::End(_) => career_run(evs, i + 1, depth - 1, found, c),
            XmlEvent::Empty(t) => if t.name@ == "mod"@ && depth == 1 {
                career_run(evs, i + 1, depth, found, career_mod(c, t))
            } else {
                career_run(evs, i + 1, depth, found, c)
            },
            XmlEvent::Start(t) => if depth == 0 {
                if t.name@ == "careerSavegame"@ {
                    career_run(evs, i + 1, 1, found, c)
                } else {
                    Err(AbstractFileError::XmlWrongFileType)
                }
            } else if depth == 2 && is_career_text_tag(t.name@) {
                proof { lemma_skip_end_bounds(evs, i + 1, t.name@, 0); }
                career_run(evs, skip_end(evs, i + 1, t.name@, 0), depth, found, career_text(c, t))
            } else {
                career_run(evs, i + 1, depth + 1, found, c)
            },
            _ => career_run(evs, i + 1, depth, found, c),
        }
    }
}

/// careerSavegame.xml read from its events.
pub open spec fn spec_career(evs: Seq<XmlEvent>) -> Result<CareerView, AbstractFileError> {
    career_run(evs, 0, 0, false, empty_career())
}

/// The decimal digits of a number: at least one, no leading zero, and they
/// read back as the number.
proof fn lemma_nat_chars(n: nat)
    ensures
        nat_chars(n).len() >= 1,
        all_digits(nat_chars(n)),
        digits_value(nat_chars(n)) == n,
        nat_chars(n).len() == 1 || nat_chars(n)[0] != '0',
        n >= 10 ==> nat_chars(n)[0] != '0' && nat_chars(n).len() >= 2,
        n < 10 ==> nat_chars(n).len() == 1,
        10 <= n < 100 ==> nat_chars(n).len() == 2,
    decreases n,
{
    let d = (('0' as u32) + (n % 10)) as char;
    assert((d as u32) == ('0' as u32) + n % 10);
    assert(is_digit(d));
    if n < 10 {
        assert(nat_chars(n) == seq![d]);
        assert(seq![d].drop_last() =~= Seq::<char>::empty());
        assert(digits_value(seq![d]) == digits_value(Seq::<char>::empty()) * 10 + ((d as u32) - ('0' as u32)) as nat);
        assert(n % 10 == n);
        assert(((d as u32) - ('0' as u32)) as nat == n);
        assert(digits_value(nat_chars(n)) == n);
    } else {
        lemma_nat_chars(n / 10);
        let s = nat_chars(n / 10).push(d);
        assert(s.drop_last() =~= nat_chars(n / 10));
        assert(s[0] == nat_chars(n / 10)[0]);
        assert forall|i: int| 0 <= i < s.len() implies is_digit(#[trigger] s[i]) by {
            if i < s.len() - 1 { assert(s[i] == nat_chars(n / 10)[i]); }
        }
        assert(digits_value(s) == digits_value(nat_chars(n / 10)) * 10 + ((d as u32) - ('0' as u32)) as nat);
        assert(n == (n / 10) * 10 + n % 10) by (nonlinear_arith);
        assert(nat_chars(n) == s);
        assert(((d as u32) - ('0' as u32)) as nat == n % 10);
        assert(digits_value(nat_chars(n)) == n);
        if n / 10 < 10 {
            assert(nat_chars(n / 10)[0] != '0') by {
                let d0 = (('0' as u32) + (n / 10)) as char;
                assert(nat_chars(n / 10) == seq![d0]);
                assert((d0 as u32) == ('0' as u32) + n / 10);
            }
        }
    }
}

/// A play time text is the hours, a `:`, and two digits of minutes under
/// 60, such that the hours times 60 plus the minutes give back the minutes
/// played; the hours are written without leading zeros.
pub proof fn law_play_time(m: nat)
    ensures
        ({
            let t = play_time_text(m);
            let h = t.subrange(0, t.len() - 3);
            let mm = t.subrange(t.len() - 2, t.len() as int);
            &&& t.len() >= 4
            &&& t[t.len() - 3] == ':'
            &&& all_digits(h) && all_digits(mm)
            &&& (h.len() == 1 || h[0] != '0')
            &&& digits_value(mm) < 60
            &&& digits_value(h) * 60 + digits_value(mm) == m
        }),
{
    let x = m % 60;
    lemma_nat_chars(m / 60);
    lemma_nat_chars(x);
    let hh = nat_chars(m / 60);
    let mm = if x < 10 { seq!['0'] + nat_chars(x) } else { nat_chars(x) };
    let t = play_time_text(m);
    assert(t == hh + seq![':'] + mm);
    assert(mm.len() == 2);
    assert(t.subrange(0, t.len() - 3) =~= hh);
    assert(t.subrange(t.len() - 2, t.len() as int) =~= mm);
    if x < 10 {
        assert(mm.drop_last() =~= seq!['0']);
        assert(seq!['0'].drop_last() =~= Seq::<char>::empty());
        assert(mm.last() == nat_chars(x)[0]);
        assert(nat_chars(x).drop_last() =~= Seq::<char>::empty());
        assert(digits_value(nat_chars(x)) == digits_value(Seq::<char>::empty()) * 10
            + ((nat_chars(x)[0] as u32) - ('0' as u32)) as nat);
        assert(digits_value(seq!['0']) == digits_value(Seq::<char>::empty()) * 10 + (('0' as u32) - ('0' as u32)) as nat);
        assert(digits_value(mm) == digits_value(seq!['0']) * 10 + ((mm.last() as u32) - ('0' as u32)) as nat);
        assert(digits_value(mm) == x);
    }
    assert(m == (m / 60) * 60 + x);
}

/// Write minutes as `hours:minutes`.
pub fn play_time_string(minutes: u64) -> (r: String)
    ensures
        r@ == play_time_text(minutes as nat),
{
    let mut v = u64_chars(minutes / 60);
    v.push(':');
    let m = minutes % 60;
    if m < 10 {
        v.push('0');
    }
    let mc = u64_chars(m);
    let mut k: usize = 0;
    let ghost start = v@;
    while k < mc.len()
        invariant
            k <= mc@.len(),
            v@ == start + mc@.subrange(0, k as int),
        decreases mc.len() - k,
    {
        v.push(mc[k]);
        k = k + 1;
        assert(v@ =~= start + mc@.subrange(0, k as int));
    }
    assert(mc@.subrange(0, mc@.len() as int) =~= mc@);
    let r = from_chars(v.as_slice());
    assert(r@ =~= play_time_text(minutes as nat));
    r
}

impl Career {
    fn apply_mod(&mut self, t: &XmlTag)
        requires
            old(self).mod_count < usize::MAX,
        ensures
            final(self)@ == career_mod(old(self)@, *t),
    {
        if let Some(name) = get_attribute(t, "modName") {
            let m = Mod {
                title: get_attribute_or_empty(t, "title"),
                version: get_attribute_or_empty(t, "version"),
                farms: FarmSet::new(),
            };
            assert(m.farms@ =~= Seq::<usize>::empty());
            self.mod_count = self.mod_count + 1;
            self.mods.0.insert(name, m);
        }
    }

    fn apply_text(&mut self, t: &XmlTag)
        ensures
            final(self)@ == career_text(old(self)@, *t),
    {
        if tag_is(t, "mapTitle") {
            self.map_title = t.inner.clone();
        } else if tag_is(t, "savegameName") {
            self.name = t.inner.clone();
        } else if tag_is(t, "saveDate") {
            self.save_date = t.inner.clone();
        } else if tag_is(t, "playTime") {
            if let Some(v) = &t.inner {
                let c = to_chars(v.as_str());
                if let Some(n) = parse_decimal_trunc(c.as_slice(), i64::MAX as u64) {
                    if n >= 0 {
                        self.play_time = Some(play_time_string(n as u64));
                    }
                }
            }
        } else {
            if let Some(v) = &t.inner {
                let c = to_chars(v.as_str());
                let k = find_char(c.as_slice(), '.');
                proof { crate::text::lemma_first_index_bound(c@, '.'); }
                let head = sub_chars(c.as_slice(), 0, k);
                self.map_mod = Some(from_chars(head.as_slice()));
            }
        }
    }

    /// Read careerSavegame.xml from its XML events.
    ///
    /// # Errors
    /// [`AbstractFileError::XmlWrongFileType`] where the root is not
    /// `<careerSavegame>`, [`AbstractFileError::XmlParseError`] where the
    /// reader fails, [`AbstractFileError::XmlUndeclared`] without an XML
    /// declaration.
    pub fn from_events(evs: &Vec<XmlEvent>) -> (r: Result<Career, AbstractFileError>)
        requires
            evs@.len() < i64::MAX,
        ensures
            match r {
                Ok(c) => spec_career(evs@) == Ok::<CareerView, AbstractFileError>(c@),
                Err(e) => spec_career(evs@) == Err::<CareerView, AbstractFileError>(e),
            },
    {
        let mut c = Career {
            map_mod: None, map_title: None, mod_count: 0, mods: Mods::new(),
            name: None, play_time: None, save_date: None,
        };
        let mut i: usize = 0;
        let mut depth: i64 = 0;
        let mut found = false;
        assert(c.mods@ =~= Seq::<(Seq<char>, ModView)>::empty());
        assert(c@ == empty_career());
        while i < evs.len()
            invariant
                i <= evs@.len(),
                -(i as int) <= depth <= i,
                c.mod_count <= i,
                evs@.len() < i64::MAX,
                career_run(evs@, i as int, depth as int, found, c@) == spec_career(evs@),
            decreases evs.len() - i,
        {
            match &evs[i] {
                XmlEvent::Error => { return Err(AbstractFileError::XmlParseError); },
                XmlEvent::Decl => { found = true; },
                XmlEvent::Eof => {
                    return if found { Ok(c) } else { Err(AbstractFileError::XmlUndeclared) };
                },
                XmlEvent::End(_) => { depth = depth - 1; },
                XmlEvent::Empty(t) => {
                    if tag_is(t, "mod") && depth == 1 {
                        c.apply_mod(t);
                    }
                },
                XmlEvent::Start(t) => {
                    if depth == 0 {
                        if tag_is(t, "careerSavegame") {
                            depth = 1;
                        } else {
                            return Err(AbstractFileError::XmlWrongFileType);
                        }
                    } else if depth == 2 && (tag_is(t, "mapTitle") || tag_is(t, "savegameName")
                        || tag_is(t, "saveDate") || tag_is(t, "playTime") || tag_is(t, "mapId")) {
                        let (j, _) = skip_to_end(evs, i + 1, t.name.as_str());
                        c.apply_text(t);
                        i = j;
                        continue;
                    } else {
                        depth = depth + 1;
                    }
                },
                _ => {},
            }
            i = i + 1;
        }
        if found { Ok(c) } else { Err(AbstractFileError::XmlUndeclared) }
    }
}

} // verus!

verus! {

impl Farms {
    /// Read farms.xml from text.
    ///
    /// # Errors
    /// as [`Farms::from_events`] for the text's events.
    pub fn from_string(xml_text: &str) -> (r: Result<Farms, AbstractFileError>)
        ensures
            match r {
                Ok(f) => exists|evs: Seq<XmlEvent>| spec_farms(evs) == Ok::<Seq<FarmView>, AbstractFileError>(f@),
                Err(e) => e == AbstractFileError::XmlParseError
                    || exists|evs: Seq<XmlEvent>| spec_farms(evs) == Err::<Seq<FarmView>, AbstractFileError>(e),
            },
    {
        let evs = crate::xml::events_of(xml_text)?;
        Farms::from_events(&evs)
    }

    /// Read farms.xml of a save game.
    ///
    /// # Errors
    /// the error reading the file gives, or as [`Farms::from_string`].
    pub fn from_abstract(mod_file: &AbstractFile) -> (r: Result<Farms, AbstractFileError>)
        ensures
            spec_text(*mod_file, "farms.xml"@) matches Err(e) ==> r == Err::<Farms, AbstractFileError>(e),
            r matches Ok(f) ==> f@.len() > 0 && f@[0] == unowned_farm(),
            farms_from(*mod_file, result_view(r)),
    {
        let text = mod_file.text("farms.xml")?;
        let r = Farms::from_string(text.as_str());
        proof {
            if r is Ok {
                let f = r->Ok_0;
                let evs = choose|evs: Seq<XmlEvent>| spec_farms(evs) == Ok::<Seq<FarmView>, AbstractFileError>(f@);
                lemma_farms_keep_first(evs, 0, 0, false, seq![unowned_farm()]);
            }
        }
        r
    }
}

impl Mods {
    /// Read vehicles.xml or placeables.xml from text.
    ///
    /// # Errors
    /// as [`Mods::from_events`] for the text's events.
    pub fn from_string(xml_text: &str) -> (r: Result<Mods, AbstractFileError>)
        ensures
            match r {
                Ok(m) => exists|evs: Seq<XmlEvent>|
                    spec_items(evs) == Ok::<Seq<(Seq<char>, ModView)>, AbstractFileError>(m@),
                Err(e) => e == AbstractFileError::XmlParseError
                    || exists|evs: Seq<XmlEvent>|
                        spec_items(evs) == Err::<Seq<(Seq<char>, ModView)>, AbstractFileError>(e),
            },
    {
        let evs = crate::xml::events_of(xml_text)?;
        Mods::from_events(&evs)
    }

    /// Read one of the item files of a save game.
    ///
    /// # Errors
    /// the error reading the file gives, or as [`Mods::from_string`].
    pub fn from_abstract_file(mod_file: &AbstractFile, needle: &str) -> (r: Result<Mods, AbstractFileError>)
        ensures
            spec_text(*mod_file, needle@) matches Err(e) ==> r == Err::<Mods, AbstractFileError>(e),
            items_from(*mod_file, needle@, result_view(r)),
    {
        let text = mod_file.text(needle)?;
        Mods::from_string(text.as_str())
    }
}

impl Career {
    /// Read careerSavegame.xml from text.
    ///
    /// # Errors
    /// as [`Career::from_events`] for the text's events.
    pub fn from_string(xml_text: &str) -> (r: Result<Career, AbstractFileError>)
        ensures
            match r {
                Ok(c) => exists|evs: Seq<XmlEvent>| spec_career(evs) == Ok::<CareerView, AbstractFileError>(c@),
                Err(e) => e == AbstractFileError::XmlParseError
                    || exists|evs: Seq<XmlEvent>| spec_career(evs) == Err::<CareerView, AbstractFileError>(e),
            },
    {
        let evs = crate::xml::events_of(xml_text)?;
        Career::from_events(&evs)
    }

    /// Read careerSavegame.xml of a save game.
    ///
    /// # Errors
    /// the error reading the file gives, or as [`Career::from_string`].
    pub fn from_abstract(mod_file: &AbstractFile) -> (r: Result<Career, AbstractFileError>)
        ensures
            spec_text(*mod_file, "careerSavegame.xml"@) matches Err(e) ==> r == Err::<Career, AbstractFileError>(e),
            career_from(*mod_file, result_view(r)),
    {
        let text = mod_file.text("careerSavegame.xml")?;
        Career::from_string(text.as_str())
    }
}

// MARK: save game

/// Data structure for a savegame
#[derive(Debug)]
pub struct SaveGame {
    /// List of found errors
    pub error_list: Vec<SaveError>,
    /// List of farms
    pub farms: Farms,
    /// Save passed all checks
    pub is_valid: bool,
    /// Map mod name (shortname)
    pub map_mod: Option<String>,
    /// Map title
    pub map_title: Option<String>,
    /// Number of mods loaded
    pub mod_count: usize,
    /// List of mods
    pub mods: Mods,
    /// Name of the save
    pub name: Option<String>,
    /// Playtime in hours:minutes, hours is unbound
    pub play_time: Option<String>,
    /// Save date
    pub save_date: Option<String>,
    /// Single player save
    pub single_farm: bool,
}

/// A save game, as plain values.
pub struct SaveGameView {
    /// errors
    pub error_list: Seq<SaveError>,
    /// farms
    pub farms: Seq<FarmView>,
    /// valid
    pub is_valid: bool,
    /// map mod
    pub map_mod: Option<Seq<char>>,
    /// map title
    pub map_title: Option<Seq<char>>,
    /// mod count
    pub mod_count: nat,
    /// mods
    pub mods: Seq<(Seq<char>, ModView)>,
    /// save name
    pub name: Option<Seq<char>>,
    /// play time
    pub play_time: Option<Seq<char>>,
    /// save date
    pub save_date: Option<Seq<char>>,
    /// single farm
    pub single_farm: bool,
}

impl View for SaveGame {
    type V = SaveGameView;

    open spec fn view(&self) -> SaveGameView {
        SaveGameView {
            error_list: self.error_list@,
            farms: self.farms@,
            is_valid: self.is_valid,
            map_mod: opt_chars(self.map_mod),
            map_title: opt_chars(self.map_title),
            mod_count: self.mod_count as nat,
            mods: self.mods@,
            name: opt_chars(self.name),
            play_time: opt_chars(self.play_time),
            save_date: opt_chars(self.save_date),
            single_farm: self.single_farm,
        }
    }
}

/// A save game that failed with one error.
pub open spec fn failed_save(e: SaveError) -> SaveGameView {
    SaveGameView {
        error_list: seq![e], farms: Seq::empty(), is_valid: false, map_mod: None, map_title: None,
        mod_count: 0, mods: Seq::empty(), name: None, play_time: None, save_date: None, single_farm: false,
    }
}

/// The error raised for a file that failed: its parse error, where the XML
/// could not be read, and else its missing-file error.
pub open spec fn file_failure(e: AbstractFileError, parse: SaveError, missing: SaveError) -> SaveError {
    if e == AbstractFileError::XmlParseError { parse } else { missing }
}

/// The save game the four files give.
pub open spec fn spec_save_game(
    career: Result<CareerView, AbstractFileError>,
    farms: Result<Seq<FarmView>, AbstractFileError>,
    vehicles: Result<Seq<(Seq<char>, ModView)>, AbstractFileError>,
    placeables: Result<Seq<(Seq<char>, ModView)>, AbstractFileError>,
) -> SaveGameView {
    match career {
        Err(e) => failed_save(file_failure(e, SaveError::CareerParseError, SaveError::CareerMissing)),
        Ok(c) => match farms {
            Err(e) => failed_save(file_failure(e, SaveError::FarmsParseError, SaveError::FarmsMissing)),
            Ok(f) => match vehicles {
                Err(e) => failed_save(file_failure(e, SaveError::VehicleParseError, SaveError::VehicleMissing)),
                Ok(v) => match placeables {
                    Err(e) => failed_save(file_failure(e, SaveError::PlaceableParseError, SaveError::PlaceableMissing)),
                    Ok(p) => {
                        let mods = merge_all(merge_all(c.mods, p), v);
                        SaveGameView {
                            error_list: Seq::empty(),
                            farms: f,
                            is_valid: true,
                            map_mod: c.map_mod,
                            map_title: c.map_title,
                            mod_count: mods.len(),
                            mods: mods,
                            name: c.name,
                            play_time: c.play_time,
                            save_date: c.save_date,
                            single_farm: f.len() <= 2,
                        }
                    },
                },
            },
        },
    }
}

/// What every save game holds: it is valid exactly when it has no error,
/// it has at most one error, an invalid one holds nothing else, and a valid
/// one counts its mods and calls itself single-farm from its farm count.
pub open spec fn save_shape(s: SaveGameView) -> bool {
    &&& s.is_valid <==> s.error_list.len() == 0
    &&& s.error_list.len() <= 1
    &&& !s.is_valid ==> s == failed_save(s.error_list[0])
    &&& s.is_valid ==> s.mod_count == s.mods.len() && s.single_farm == (s.farms.len() <= 2)
}

/// What reading careerSavegame.xml of a save game gives: the read error of
/// the file, or, where its text reads, a career some events give, or the
/// parse error, or an error some events give.
pub open spec fn career_from(file: AbstractFile, c: Result<CareerView, AbstractFileError>) -> bool {
    match spec_text(file, "careerSavegame.xml"@) {
        Err(e) => c == Err::<CareerView, AbstractFileError>(e),
        Ok(_) => match c {
            Ok(v) => exists|evs: Seq<XmlEvent>| #[trigger] spec_career(evs) == Ok::<CareerView, AbstractFileError>(v),
            Err(e) => e == AbstractFileError::XmlParseError
                || exists|evs: Seq<XmlEvent>| #[trigger] spec_career(evs) == Err::<CareerView, AbstractFileError>(e),
        },
    }
}

/// What reading farms.xml of a save game gives, as [`career_from`]; a farm
/// list read always starts with the unowned farm.
pub open spec fn farms_from(file: AbstractFile, f: Result<Seq<FarmView>, AbstractFileError>) -> bool {
    match spec_text(file, "farms.xml"@) {
        Err(e) => f == Err::<Seq<FarmView>, AbstractFileError>(e),
        Ok(_) => match f {
            Ok(v) => v.len() > 0 && v[0] == unowned_farm()
                && exists|evs: Seq<XmlEvent>| #[trigger] spec_farms(evs) == Ok::<Seq<FarmView>, AbstractFileError>(v),
            Err(e) => e == AbstractFileError::XmlParseError
                || exists|evs: Seq<XmlEvent>| #[trigger] spec_farms(evs) == Err::<Seq<FarmView>, AbstractFileError>(e),
        },
    }
}

/// What reading a list of placed items (`name`) of a save game gives, as
/// [`career_from`].
pub open spec fn items_from(file: AbstractFile, name: Seq<char>, m: Result<Seq<(Seq<char>, ModView)>, AbstractFileError>) -> bool {
    match spec_text(file, name) {
        Err(e) => m == Err::<Seq<(Seq<char>, ModView)>, AbstractFileError>(e),
        Ok(_) => match m {
            Ok(v) => exists|evs: Seq<XmlEvent>| #[trigger] spec_items(evs) == Ok::<Seq<(Seq<char>, ModView)>, AbstractFileError>(v),
            Err(e) => e == AbstractFileError::XmlParseError
                || exists|evs: Seq<XmlEvent>| #[trigger] spec_items(evs) == Err::<Seq<(Seq<char>, ModView)>, AbstractFileError>(e),
        },
    }
}

/// A save game as its four files give it, read in order, each only where
/// the ones before it read.
pub open spec fn save_from_files(file: AbstractFile, s: SaveGameView) -> bool {
    exists|c: Result<CareerView, AbstractFileError>, f: Result<Seq<FarmView>, AbstractFileError>,
        v: Result<Seq<(Seq<char>, ModView)>, AbstractFileError>, p: Result<Seq<(Seq<char>, ModView)>, AbstractFileError>| {
        &&& s == #[trigger] spec_save_game(c, f, v, p)
        &&& career_from(file, c)
        &&& (c is Ok ==> farms_from(file, f))
        &&& (c is Ok && f is Ok ==> items_from(file, "vehicles.xml"@, v))
        &&& (c is Ok && f is Ok && v is Ok ==> items_from(file, "placeables.xml"@, p))
    }
}

/// The views of a result.
pub open spec fn result_view<T: View>(r: Result<T, AbstractFileError>) -> Result<T::V, AbstractFileError> {
    match r {
        Ok(v) => Ok(v@),
        Err(e) => Err(e),
    }
}

fn failed(e: SaveError) -> (r: SaveGame)
    ensures
        r@ == failed_save(e),
{
    let mut error_list = Vec::new();
    error_list.push(e);
    let r = SaveGame {
        error_list, farms: Farms(Vec::new()), is_valid: false, map_mod: None, map_title: None,
        mod_count: 0, mods: Mods::new(), name: None, play_time: None, save_date: None, single_farm: false,
    };
    assert(r.error_list@ =~= seq![e]);
    assert(r.farms@ =~= Seq::<FarmView>::empty());
    assert(r.mods@ =~= Seq::<(Seq<char>, ModView)>::empty());
    r
}

fn failure_of(e: AbstractFileError, parse: SaveError, missing: SaveError) -> (r: SaveError)
    ensures
        r == file_failure(e, parse, missing),
{
    if e == AbstractFileError::XmlParseError { parse } else { missing }
}

impl SaveGame {
    /// Assemble a save game from what its four files gave.
    pub fn from_results(
        career: Result<Career, AbstractFileError>,
        farms: Result<Farms, AbstractFileError>,
        vehicles: Result<Mods, AbstractFileError>,
        placeables: Result<Mods, AbstractFileError>,
    ) -> (r: SaveGame)
        ensures
            r@ == spec_save_game(result_view(career), result_view(farms), result_view(vehicles),
                result_view(placeables)),
    {
        let career = match career {
            Err(e) => { return failed(failure_of(e, SaveError::CareerParseError, SaveError::CareerMissing)); },
            Ok(c) => c,
        };
        let farms = match farms {
            Err(e) => { return failed(failure_of(e, SaveError::FarmsParseError, SaveError::FarmsMissing)); },
            Ok(f) => f,
        };
        let vehicles = match vehicles {
            Err(e) => { return failed(failure_of(e, SaveError::VehicleParseError, SaveError::VehicleMissing)); },
            Ok(v) => v,
        };
        let placeables = match placeables {
            Err(e) => { return failed(failure_of(e, SaveError::PlaceableParseError, SaveError::PlaceableMissing)); },
            Ok(p) => p,
        };
        let mut mods = career.mods;
        mods.deep_merge(placeables);
        mods.deep_merge(vehicles);
        let mod_count = mods.0.len();
        let single_farm = farms.0.len() <= 2;
        SaveGame {
            error_list: Vec::new(),
            farms,
            is_valid: true,
            map_mod: career.map_mod,
            map_title: career.map_title,
            mod_count,
            mods,
            name: career.name,
            play_time: career.play_time,
            save_date: career.save_date,
            single_farm,
        }
    }

    /// Load a save game from an [`AbstractFile`]: careerSavegame.xml,
    /// farms.xml, vehicles.xml and placeables.xml, read in that order.
    pub fn from_abstract(mod_file: &AbstractFile) -> (r: SaveGame)
        ensures
            spec_text(*mod_file, "careerSavegame.xml"@) matches Err(e) ==>
                r@ == failed_save(file_failure(e, SaveError::CareerParseError, SaveError::CareerMissing)),
            r.is_valid <==> r.error_list@.len() == 0,
            r.error_list@.len() <= 1,
            save_shape(r@),
            r.is_valid ==> r@.farms.len() > 0 && r@.farms[0] == unowned_farm(),
            save_from_files(*mod_file, r@),
    {
        let career = Career::from_abstract(mod_file);
        let farms = if career.is_ok() { Farms::from_abstract(mod_file) } else { Err(AbstractFileError::FileNotFound) };
        let vehicles = if farms.is_ok() {
            Mods::from_abstract_file(mod_file, "vehicles.xml")
        } else {
            Err(AbstractFileError::FileNotFound)
        };
        let placeables = if vehicles.is_ok() {
            Mods::from_abstract_file(mod_file, "placeables.xml")
        } else {
            Err(AbstractFileError::FileNotFound)
        };
        SaveGame::from_results(career, farms, vehicles, placeables)
    }
}

/// Parse a save game.
///
/// Returned information includes the mods loaded and used in the save with
/// their count, play time, save date and name, the map mod and title, the
/// errors found with a valid flag, and the farm list with a flag for single
/// farm saves.
pub fn parser(mod_file: &AbstractFile) -> (r: SaveGame)
    ensures
        spec_text(*mod_file, "careerSavegame.xml"@) matches Err(e) ==>
            r@ == failed_save(file_failure(e, SaveError::CareerParseError, SaveError::CareerMissing)),
        r.is_valid <==> r.error_list@.len() == 0,
        r.error_list@.len() <= 1,
        save_shape(r@),
        r.is_valid ==> r@.farms.len() > 0 && r@.farms[0] == unowned_farm(),
        save_from_files(*mod_file, r@),
{
    SaveGame::from_abstract(mod_file)
}

} // verus!
