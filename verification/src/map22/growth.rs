//! Growth of a map's crops: which growth state each state turns into in
//! each period, and in which periods a crop may be planted. From these the
//! periods a crop can be harvested in follow.
use vstd::prelude::*;
use crate::errors::AbstractFileError;
use crate::collections::{StrMap, map_insert, lookup, lemma_key_index};
use crate::files::{AbstractFile, spec_text, PeriodMask};
use crate::text::{lower_seq, to_chars, to_lower, chars_eq, from_chars, first_index, find_char,
    unsigned_or_zero, unsigned_or_zero_exec, sub_chars, str_eq, lemma_first_index_bound};
use crate::xml::{XmlEvent, XmlTag, tag_attr, attr_usize, get_attribute, get_attribute_usize, tag_is, events_of};
use super::fruit_types::FruitType;

verus! {

/// Number of growth states a period's table holds.
pub const STATES: usize = 20;

/// New growth state for each current growth state (state `s` at index
/// `s - 1`); 0 leaves the state as it is.
#[derive(Debug)]
pub struct GrowNewState(pub Vec<usize>);

impl View for GrowNewState {
    type V = Seq<usize>;

    open spec fn view(&self) -> Seq<usize> {
        self.0@
    }
}

/// Growth of a crop in one period.
#[derive(Debug)]
pub struct GrowCrop {
    /// new states
    pub new_states: GrowNewState,
    /// can plant in this period
    pub plant: bool,
}

/// Growth of a crop in one period, as plain values.
pub struct GrowCropView {
    /// new state for each state
    pub new_states: Seq<usize>,
    /// can plant
    pub plant: bool,
}

impl View for GrowCrop {
    type V = GrowCropView;

    open spec fn view(&self) -> GrowCropView {
        GrowCropView { new_states: self.new_states@, plant: self.plant }
    }
}

/// 12 periods of [`GrowCrop`]
#[derive(Debug)]
pub struct GrowCrops(pub Vec<GrowCrop>);

impl View for GrowCrops {
    type V = Seq<GrowCropView>;

    open spec fn view(&self) -> Seq<GrowCropView> {
        self.0@.map_values(|g: GrowCrop| g@)
    }
}

/// Growth for a named crop: lower-case crop name to its 12 periods
#[derive(Debug)]
pub struct Growth(pub StrMap<GrowCrops>);

impl View for Growth {
    type V = Seq<(Seq<char>, Seq<GrowCropView>)>;

    open spec fn view(&self) -> Self::V {
        self.0@
    }
}

/// Twelve periods of twenty states, each no higher than twenty.
pub open spec fn crop_wf(c: Seq<GrowCropView>) -> bool {
    &&& c.len() == 12
    &&& forall|p: int| 0 <= p < 12 ==> (#[trigger] c[p]).new_states.len() == STATES
    &&& forall|p: int, s: int| 0 <= p < 12 && 0 <= s < STATES ==> #[trigger] c[p].new_states[s] <= STATES
}

/// Every crop of the growth table is well formed.
pub open spec fn growth_wf(g: Seq<(Seq<char>, Seq<GrowCropView>)>) -> bool {
    forall|i: int| 0 <= i < g.len() ==> crop_wf(#[trigger] g[i].1)
}

/// A period in which nothing grows.
pub open spec fn idle_period() -> GrowCropView {
    GrowCropView { new_states: zero_states(), plant: false }
}

/// A crop with no growth in any period.
pub open spec fn idle_crop() -> Seq<GrowCropView> {
    Seq::new(12, |p: int| idle_period())
}

// MARK: harvest

/// The periods a crop may be planted in.
pub open spec fn planting(g: Seq<(Seq<char>, Seq<GrowCropView>)>, name: Seq<char>) -> Set<int> {
    match lookup(g, name) {
        Some(c) => Set::new(|p: int| 1 <= p <= 12 && c[p - 1].plant),
        None => Set::empty(),
    }
}

/// Periods a crop is followed through after planting: two years where its
/// first harvest state lies beyond 12, else one.
pub open spec fn grow_time(min: int) -> int {
    if min > 12 { 24 } else { 12 }
}

/// The state after period `p` (counted from 1, wrapping every 12) for a crop in `state`.
pub open spec fn next_state(c: Seq<GrowCropView>, p: int, state: int) -> int {
    let ns = c[(p - 1) % 12].new_states[state - 1] as int;
    if ns != 0 { ns } else { state }
}

/// Following a crop from period `p` to `end` in `state`: the periods
/// (`p % 12 + 1`, the one after `p`) in which its state lies in `[min, max]`.
pub open spec fn harvest_walk(c: Seq<GrowCropView>, p: int, end: int, state: int, min: int, max: int) -> Set<int>
    decreases end + 1 - p,
{
    if p > end {
        Set::empty()
    } else {
        let st = next_state(c, p, state);
        let rest = harvest_walk(c, p + 1, end, st, min, max);
        if min <= st <= max { rest.insert(p % 12 + 1) } else { rest }
    }
}

/// Harvest periods of a crop planted in `start`, starting in state 1.
pub open spec fn single_harvest(g: Seq<(Seq<char>, Seq<GrowCropView>)>, name: Seq<char>, start: int, min: int, max: int) -> Set<int> {
    match lookup(g, name) {
        Some(c) => harvest_walk(c, start, start + grow_time(min), 1, min, max),
        None => Set::empty(),
    }
}

/// Harvest periods over the planting periods `1..=n`.
pub open spec fn harvest_upto(g: Seq<(Seq<char>, Seq<GrowCropView>)>, name: Seq<char>, min: int, max: int, n: int) -> Set<int>
    decreases n,
{
    if n <= 0 {
        Set::empty()
    } else {
        let before = harvest_upto(g, name, min, max, n - 1);
        if planting(g, name).contains(n) { before.union(single_harvest(g, name, n, min, max)) } else { before }
    }
}

/// The periods a crop can be harvested in: over every planting period.
pub open spec fn harvest(g: Seq<(Seq<char>, Seq<GrowCropView>)>, name: Seq<char>, fruit: FruitType) -> Set<int> {
    harvest_upto(g, name, fruit.min_harvest as int, fruit.max_harvest as int, 12)
}

/// Harvest periods over the planting periods `1..=n`: those of a single
/// planting in one of them.
proof fn lemma_harvest_upto_union(g: Seq<(Seq<char>, Seq<GrowCropView>)>, name: Seq<char>, min: int, max: int, n: int, q: int)
    ensures
        harvest_upto(g, name, min, max, n).contains(q) <==> exists|p: int|
            1 <= p <= n && #[trigger] planting(g, name).contains(p) && single_harvest(g, name, p, min, max).contains(q),
    decreases n,
{
    if n > 0 {
        lemma_harvest_upto_union(g, name, min, max, n - 1, q);
        if exists|p: int| 1 <= p <= n && #[trigger] planting(g, name).contains(p) && single_harvest(g, name, p, min, max).contains(q) {
            let p = choose|p: int| 1 <= p <= n && #[trigger] planting(g, name).contains(p) && single_harvest(g, name, p, min, max).contains(q);
            if p < n {
                assert(1 <= p <= n - 1 && planting(g, name).contains(p) && single_harvest(g, name, p, min, max).contains(q));
            }
        }
    }
}

/// A crop is harvested in exactly the periods in which one of its plantings
/// can be harvested: the union of the single harvests over its planting
/// periods (none where it has none, or is not in the table).
pub proof fn law_harvest_union(g: Seq<(Seq<char>, Seq<GrowCropView>)>, name: Seq<char>, fruit: FruitType, q: int)
    ensures
        harvest(g, name, fruit).contains(q) <==> exists|p: int| #[trigger] planting(g, name).contains(p)
            && single_harvest(g, name, p, fruit.min_harvest as int, fruit.max_harvest as int).contains(q),
{
    let min = fruit.min_harvest as int;
    let max = fruit.max_harvest as int;
    lemma_harvest_upto_union(g, name, min, max, 12, q);
    if exists|p: int| #[trigger] planting(g, name).contains(p) && single_harvest(g, name, p, min, max).contains(q) {
        let p = choose|p: int| #[trigger] planting(g, name).contains(p) && single_harvest(g, name, p, min, max).contains(q);
        assert(1 <= p <= 12 && planting(g, name).contains(p) && single_harvest(g, name, p, min, max).contains(q));
    }
}

/// A wider range of harvest states finds every period a narrower one finds.
proof fn lemma_walk_widen(c: Seq<GrowCropView>, p: int, end: int, state: int, min1: int, max1: int, min2: int, max2: int, q: int)
    requires
        min2 <= min1,
        max1 <= max2,
        harvest_walk(c, p, end, state, min1, max1).contains(q),
    ensures
        harvest_walk(c, p, end, state, min2, max2).contains(q),
    decreases end + 1 - p,
{
    if p <= end {
        let st = next_state(c, p, state);
        if harvest_walk(c, p + 1, end, st, min1, max1).contains(q) {
            lemma_walk_widen(c, p + 1, end, st, min1, max1, min2, max2, q);
        }
    }
}

/// Widening a crop's range of harvest states never removes a harvest
/// period, as long as its first harvest state stays on the same side of 12
/// (which decides whether the crop is followed for one year or two).
pub proof fn law_widen_harvest(g: Seq<(Seq<char>, Seq<GrowCropView>)>, name: Seq<char>, f1: FruitType, f2: FruitType, q: int)
    requires
        f2.min_harvest <= f1.min_harvest,
        f1.max_harvest <= f2.max_harvest,
        (f1.min_harvest > 12) == (f2.min_harvest > 12),
        harvest(g, name, f1).contains(q),
    ensures
        harvest(g, name, f2).contains(q),
{
    law_harvest_union(g, name, f1, q);
    law_harvest_union(g, name, f2, q);
    let p = choose|p: int| #[trigger] planting(g, name).contains(p)
        && single_harvest(g, name, p, f1.min_harvest as int, f1.max_harvest as int).contains(q);
    let c = lookup(g, name).unwrap();
    lemma_walk_widen(c, p, p + grow_time(f1.min_harvest as int), 1, f1.min_harvest as int, f1.max_harvest as int,
        f2.min_harvest as int, f2.max_harvest as int, q);
    assert(single_harvest(g, name, p, f2.min_harvest as int, f2.max_harvest as int).contains(q));
}

/// A walk only finds periods 1 to 12.
pub proof fn lemma_walk_periods(c: Seq<GrowCropView>, p: int, end: int, state: int, min: int, max: int, q: int)
    requires
        harvest_walk(c, p, end, state, min, max).contains(q),
        p >= 0,
    ensures
        1 <= q <= 12,
    decreases end + 1 - p,
{
    if p <= end {
        let st = next_state(c, p, state);
        if !(min <= st <= max && q == p % 12 + 1) {
            lemma_walk_periods(c, p + 1, end, st, min, max, q);
        }
    }
}

/// Harvest periods gathered over planting periods `1..=n` are periods of
/// the year, each reached from a planting period.
proof fn lemma_harvest_upto_periods(g: Seq<(Seq<char>, Seq<GrowCropView>)>, name: Seq<char>, min: int, max: int, n: int, q: int)
    requires
        harvest_upto(g, name, min, max, n).contains(q),
    ensures
        1 <= q <= 12,
        exists|p: int| 1 <= p <= n && #[trigger] planting(g, name).contains(p),
    decreases n,
{
    if n > 0 {
        let before = harvest_upto(g, name, min, max, n - 1);
        if before.contains(q) {
            lemma_harvest_upto_periods(g, name, min, max, n - 1, q);
            let p = choose|p: int| 1 <= p <= n - 1 && #[trigger] planting(g, name).contains(p);
            assert(planting(g, name).contains(p));
        } else {
            assert(planting(g, name).contains(n));
            assert(single_harvest(g, name, n, min, max).contains(q));
            let c = lookup(g, name).unwrap();
            lemma_walk_periods(c, n, n + grow_time(min), 1, min, max, q);
        }
    }
}

/// A crop is planted and harvested only in periods of the year (1 to 12);
/// it is harvested only where it can be planted at all; and a crop that is
/// not in the growth table can be neither planted nor harvested.
pub proof fn law_crop_periods(g: Seq<(Seq<char>, Seq<GrowCropView>)>, name: Seq<char>, fruit: FruitType, q: int)
    ensures
        planting(g, name).contains(q) ==> 1 <= q <= 12,
        harvest(g, name, fruit).contains(q) ==> 1 <= q <= 12,
        harvest(g, name, fruit).contains(q) ==> exists|p: int| #[trigger] planting(g, name).contains(p),
        lookup(g, name) is None ==> planting(g, name) == Set::<int>::empty(),
        lookup(g, name) is None ==> harvest(g, name, fruit) == Set::<int>::empty(),
{
    if harvest(g, name, fruit).contains(q) {
        lemma_harvest_upto_periods(g, name, fruit.min_harvest as int, fruit.max_harvest as int, 12, q);
    }
    if lookup(g, name) is None {
        assert(planting(g, name) =~= Set::<int>::empty());
        assert forall|r: int| !harvest(g, name, fruit).contains(r) by {
            if harvest(g, name, fruit).contains(r) {
                lemma_harvest_upto_periods(g, name, fruit.min_harvest as int, fruit.max_harvest as int, 12, r);
                let p = choose|p: int| 1 <= p <= 12 && #[trigger] planting(g, name).contains(p);
            }
        }
        assert(harvest(g, name, fruit) =~= Set::<int>::empty());
    }
}

impl Growth {
    /// Index of a crop's entry.
    fn crop_index(&self, name: &str) -> (r: Option<usize>)
        ensures
            match r {
                Some(i) => i < self.0.entries@.len() && lookup(self@, name@) == Some(self@[i as int].1),
                None => lookup(self@, name@) is None,
            },
    {
        proof { lemma_key_index(self@, name@); }
        self.0.find(name)
    }

    /// Get planting months
    pub fn get_planting(&self, name: &str) -> (r: PeriodMask)
        requires
            growth_wf(self@),
        ensures
            r@ == planting(self@, name@),
    {
        let mut mask = PeriodMask::new();
        match self.crop_index(name) {
            None => {
                assert(mask@ =~= planting(self@, name@));
            },
            Some(ci) => {
                let crop = &self.0.entries[ci].1;
                let ghost c = self@[ci as int].1;
                assert(c == crop@);
                assert(crop_wf(c));
                let mut p: usize = 1;
                while p <= 12
                    invariant
                        1 <= p <= 13,
                        c == crop@,
                        crop_wf(c),
                        mask@ == Set::new(|q: int| 1 <= q < p && c[q - 1].plant),
                    decreases 13 - p,
                {
                    if crop.0[p - 1].plant {
                        mask.set(p);
                    }
                    assert(mask@ =~= Set::new(|q: int| 1 <= q < p + 1 && c[q - 1].plant));
                    p = p + 1;
                }
                assert(mask@ =~= planting(self@, name@));
            },
        }
        mask
    }

    /// Get harvest months from plant period start
    fn single_harvest(&self, name: &str, start_period: usize, min: usize, max: usize) -> (r: PeriodMask)
        requires
            growth_wf(self@),
            1 <= start_period <= 12,
        ensures
            r@ == single_harvest(self@, name@, start_period as int, min as int, max as int),
    {
        let grow_time: usize = if min > 12 { 24 } else { 12 };
        let mut can_harvest = PeriodMask::new();
        match self.crop_index(name) {
            None => {},
            Some(ci) => {
                let crop = &self.0.entries[ci].1;
                let ghost c = self@[ci as int].1;
                assert(c == crop@);
                assert(crop_wf(c));
                let end = start_period + grow_time;
                let mut current_state: usize = 1;
                let mut p: usize = start_period;
                while p <= end
                    invariant
                        1 <= start_period <= p <= end + 1,
                        end == start_period + grow_time,
                        end <= 36,
                        grow_time == (if min > 12 { 24usize } else { 12usize }),
                        1 <= current_state <= STATES,
                        c == crop@,
                        crop_wf(c),
                        can_harvest@.union(harvest_walk(c, p as int, end as int, current_state as int, min as int, max as int))
                            == harvest_walk(c, start_period as int, end as int, 1, min as int, max as int),
                    decreases end + 1 - p,
                {
                    let p_index = (p - 1) % 12;
                    let p_ready = (p % 12) + 1;
                    let ghost before = can_harvest@;
                    let ghost walk = harvest_walk(c, p as int, end as int, current_state as int, min as int, max as int);
                    assert(crop.0@[p_index as int]@ == c[p_index as int]);
                    let new_state = crop.0[p_index].new_states.0[current_state - 1];
                    assert(new_state == c[p_index as int].new_states[current_state - 1]);
                    if new_state != 0 {
                        current_state = new_state;
                    }
                    if current_state >= min && current_state <= max {
                        can_harvest.set(p_ready);
                    }
                    assert(can_harvest@.union(harvest_walk(c, p + 1, end as int, current_state as int, min as int, max as int))
                        =~= before.union(walk));
                    p = p + 1;
                }
            },
        }
        can_harvest
    }

    /// Get harvest periods from min and max
    pub fn get_harvest(&self, name: &str, fruit: &FruitType) -> (r: PeriodMask)
        requires
            growth_wf(self@),
        ensures
            r@ == harvest(self@, name@, *fruit),
    {
        let mut can_harvest = PeriodMask::new();
        let plant_periods = self.get_planting(name);
        let mut period: usize = 1;
        assert(can_harvest@ =~= harvest_upto(self@, name@, fruit.min_harvest as int, fruit.max_harvest as int, 0));
        while period <= 12
            invariant
                1 <= period <= 13,
                growth_wf(self@),
                plant_periods@ == planting(self@, name@),
                can_harvest@ == harvest_upto(self@, name@, fruit.min_harvest as int, fruit.max_harvest as int, period - 1),
            decreases 13 - period,
        {
            if plant_periods.has(period) {
                let one = self.single_harvest(name, period, fruit.min_harvest, fruit.max_harvest);
                can_harvest.union_with(&one);
            }
            period = period + 1;
        }
        can_harvest
    }
}

} // verus!

verus! {

// MARK: reading growth.xml

/// The range of an `<update range="..">`: `a-b` (a missing or unreadable
/// number reads as 0) or a single number `n`; `None` for anything else.
pub open spec fn update_range(rs: Seq<char>) -> Option<(nat, nat)> {
    let k = first_index(rs, '-');
    if k < rs.len() {
        let rest = rs.subrange(k + 1, rs.len() as int);
        if first_index(rest, '-') < rest.len() {
            None
        } else {
            Some((unsigned_or_zero(rs.subrange(0, k), usize::MAX as nat), unsigned_or_zero(rest, usize::MAX as nat)))
        }
    } else {
        match crate::text::unsigned_text_value(rs) {
            Some(v) => if v <= usize::MAX { Some((v, v)) } else { None },
            None => None,
        }
    }
}

/// Twenty states that leave every state as it is.
pub open spec fn zero_states() -> Seq<usize> {
    Seq::new(STATES as nat, |s: int| 0usize)
}

/// The states `lo..=hi` moved on by `add`.
pub open spec fn apply_add(st: Seq<usize>, lo: nat, hi: nat, add: nat) -> Seq<usize> {
    Seq::new(st.len(), |k: int| if lo <= k + 1 <= hi { (k + 1 + add) as usize } else { st[k] })
}

/// The states `lo..=hi` set to `set`.
pub open spec fn apply_set(st: Seq<usize>, lo: nat, hi: nat, set: nat) -> Seq<usize> {
    Seq::new(st.len(), |k: int| if lo <= k + 1 <= hi { set as usize } else { st[k] })
}

/// What an `<update>` tag does to a period's states; `None` where it names a
/// state outside 1 to 20 or leads to one.
pub open spec fn update_effect(t: XmlTag, st: Seq<usize>) -> Option<Seq<usize>> {
    match tag_attr(t, "range"@) {
        None => Some(st),
        Some(rs) => match update_range(rs) {
            None => Some(st),
            Some((lo, hi)) => if lo <= hi && (lo < 1 || hi > STATES) {
                None
            } else {
                match attr_usize(t, "add"@) {
                    Some(add) => if lo <= hi && hi + add > STATES { None } else { Some(apply_add(st, lo, hi, add)) },
                    None => match attr_usize(t, "set"@) {
                        Some(set) => if lo <= hi && set > STATES { None } else { Some(apply_set(st, lo, hi, set)) },
                        None => Some(st),
                    },
                }
            },
        },
    }
}

/// What reading a `<period>` can come to.
pub enum PeriodRead {
    /// the states, and where reading goes on
    Done(Seq<usize>, int),
    /// a state outside what the game has
    OutOfRange,
}

/// Reading the children of a `<period>` from event `j` on.
pub open spec fn period_run(evs: Seq<XmlEvent>, j: int, st: Seq<usize>) -> PeriodRead
    decreases evs.len() - j,
{
    if j < 0 || j >= evs.len() {
        PeriodRead::Done(st, evs.len() as int)
    } else {
        match evs[j] {
            XmlEvent::Empty(t) => if t.name@ == "update"@ {
                match update_effect(t, st) {
                    None => PeriodRead::OutOfRange,
                    Some(s2) => period_run(evs, j + 1, s2),
                }
            } else {
                period_run(evs, j + 1, st)
            },
            XmlEvent::End(n) => if n@ == "period"@ { PeriodRead::Done(st, j + 1) } else { period_run(evs, j + 1, st) },
            XmlEvent::Eof => PeriodRead::Done(st, j),
            _ => period_run(evs, j + 1, st),
        }
    }
}

/// The crop with period `idx` marked plantable, where the tag says `plantingAllowed="true"`.
pub open spec fn with_plant(c: Seq<GrowCropView>, t: XmlTag, idx: int) -> Seq<GrowCropView> {
    if tag_attr(t, "plantingAllowed"@) == Some("true"@) {
        c.update(idx - 1, GrowCropView { plant: true, ..c[idx - 1] })
    } else {
        c
    }
}

/// What reading a `<fruit>` can come to.
pub enum FruitRead {
    /// whether it had periods, the crop, and where reading goes on
    Done(bool, Seq<GrowCropView>, int),
    /// a period or state outside what the game has
    OutOfRange,
}

/// Reading the children of a `<fruit>` from event `j` on.
pub open spec fn fruit_run(evs: Seq<XmlEvent>, j: int, seasonal: bool, c: Seq<GrowCropView>) -> FruitRead
    decreases evs.len() - j,
{
    if j < 0 || j >= evs.len() {
        FruitRead::Done(seasonal, c, evs.len() as int)
    } else {
        match evs[j] {
            XmlEvent::Start(t) => if t.name@ == "period"@ {
                match attr_usize(t, "index"@) {
                    None => fruit_run(evs, j + 1, true, c),
                    Some(idx) => if idx < 1 || idx > 12 {
                        FruitRead::OutOfRange
                    } else {
                        let c1 = with_plant(c, t, idx as int);
                        match period_run(evs, j + 1, zero_states()) {
                            PeriodRead::OutOfRange => FruitRead::OutOfRange,
                            PeriodRead::Done(st, k) => if j < k <= evs.len() {
                                fruit_run(evs, k, true, c1.update(idx - 1, GrowCropView { new_states: st, ..c1[idx - 1] }))
                            } else {
                                FruitRead::OutOfRange
                            },
                        }
                    },
                }
            } else {
                fruit_run(evs, j + 1, seasonal, c)
            },
            XmlEvent::Empty(t) => if t.name@ == "period"@ {
                match attr_usize(t, "index"@) {
                    None => fruit_run(evs, j + 1, true, c),
                    Some(idx) => if idx < 1 || idx > 12 {
                        FruitRead::OutOfRange
                    } else {
                        fruit_run(evs, j + 1, true, with_plant(c, t, idx as int))
                    },
                }
            } else {
                fruit_run(evs, j + 1, seasonal, c)
            },
            XmlEvent::End(n) => if n@ == "fruit"@ { FruitRead::Done(seasonal, c, j + 1) } else { fruit_run(evs, j + 1, seasonal, c) },
            XmlEvent::Eof => FruitRead::Done(seasonal, c, j),
            _ => fruit_run(evs, j + 1, seasonal, c),
        }
    }
}

/// What reading a growth file can come to.
pub enum GrowthRead {
    /// the growth table
    Done(Seq<(Seq<char>, Seq<GrowCropView>)>),
    /// the file could not be read
    Failed(AbstractFileError),
    /// a period or state outside what the game has
    OutOfRange,
}

/// Reading a growth file from event `i` on, with `depth` open tags.
pub open spec fn growth_run(evs: Seq<XmlEvent>, i: int, depth: int, found: bool, g: Seq<(Seq<char>, Seq<GrowCropView>)>) -> GrowthRead
    decreases evs.len() - i,
{
    if i < 0 || i >= evs.len() {
        if found { GrowthRead::Done(g) } else { GrowthRead::Failed(AbstractFileError::XmlUndeclared) }
    } else {
        match evs[i] {
            XmlEvent::Error => GrowthRead::Failed(AbstractFileError::XmlParseError),
            XmlEvent::Decl => growth_run(evs, i + 1, depth, true, g),
            XmlEvent::Eof => if found { GrowthRead::Done(g) } else { GrowthRead::Failed(AbstractFileError::XmlUndeclared) },
            XmlEvent::End(_) => growth_run(evs, i + 1, depth - 1, found, g),
            XmlEvent::Start(t) => if t.name@ == "growth"@ && depth == 0 {
                growth_run(evs, i + 1, depth + 1, found, g)
            } else if t.name@ == "fruit"@ && depth == 2 {
                match tag_attr(t, "name"@) {
                    None => growth_run(evs, i + 1, depth, found, g),
                    Some(n) => match fruit_run(evs, i + 1, false, idle_crop()) {
                        FruitRead::OutOfRange => GrowthRead::OutOfRange,
                        FruitRead::Done(seasonal, c, k) => if i < k <= evs.len() {
                            growth_run(evs, k, depth, found,
                                if seasonal && lower_seq(n) != "meadow"@ { map_insert(g, lower_seq(n), c) } else { g })
                        } else {
                            GrowthRead::OutOfRange
                        },
                    },
                }
            } else if depth == 0 {
                GrowthRead::Failed(AbstractFileError::XmlWrongFileType)
            } else {
                growth_run(evs, i + 1, depth + 1, found, g)
            },
            _ => growth_run(evs, i + 1, depth, found, g),
        }
    }
}

/// A growth file read from its events.
pub open spec fn spec_growth(evs: Seq<XmlEvent>) -> GrowthRead {
    growth_run(evs, 0, 0, false, Seq::empty())
}

/// Twenty states, each no higher than twenty.
pub open spec fn states_wf(st: Seq<usize>) -> bool {
    st.len() == STATES && forall|s: int| 0 <= s < STATES ==> #[trigger] st[s] <= STATES
}

/// Read the range of an `<update>`.
fn parse_update_range(rs: &str) -> (r: Option<(usize, usize)>)
    ensures
        match r {
            Some((a, b)) => update_range(rs@) == Some((a as nat, b as nat)),
            None => update_range(rs@) is None,
        },
{
    let c = to_chars(rs);
    let k = find_char(c.as_slice(), '-');
    proof { lemma_first_index_bound(c@, '-'); }
    if k < c.len() {
        let rest = sub_chars(c.as_slice(), k + 1, c.len());
        proof { lemma_first_index_bound(rest@, '-'); }
        if find_char(rest.as_slice(), '-') < rest.len() {
            None
        } else {
            let a = sub_chars(c.as_slice(), 0, k);
            Some((unsigned_or_zero_exec(a.as_slice(), usize::MAX as u64) as usize,
                unsigned_or_zero_exec(rest.as_slice(), usize::MAX as u64) as usize))
        }
    } else {
        match crate::text::parse_unsigned(c.as_slice(), usize::MAX as u64) {
            Some(v) => Some((v as usize, v as usize)),
            None => None,
        }
    }
}

/// Apply an `<update>` tag to a period's states: `false` where it names a
/// state outside 1 to 20 or leads to one.
fn update_tag(t: &XmlTag, st: &mut Vec<usize>) -> (ok: bool)
    requires
        states_wf(old(st)@),
    ensures
        ok == (update_effect(*t, old(st)@) is Some),
        ok ==> update_effect(*t, old(st)@) == Some(final(st)@) && states_wf(final(st)@),
{
    let rs = match get_attribute(t, "range") {
        None => { return true; },
        Some(v) => v,
    };
    let (lo, hi) = match parse_update_range(rs.as_str()) {
        None => { return true; },
        Some(x) => x,
    };
    if lo <= hi && (lo < 1 || hi > STATES) {
        return false;
    }
    let ghost orig = st@;
    match get_attribute_usize(t, "add") {
        Some(add) => {
            if lo <= hi && add > STATES - hi {
                return false;
            }
            let mut input = lo;
            while input <= hi
                invariant
                    lo <= input,
                    lo <= hi ==> 1 <= lo && hi <= STATES && hi + add <= STATES,
                    lo <= hi ==> input <= hi + 1,
                    lo > hi ==> input == lo,
                    st@.len() == STATES,
                    st@ == Seq::new(STATES as nat, |k: int| if lo <= k + 1 < input { (k + 1 + add) as usize } else { orig[k] }),
                decreases hi + 1 - input,
            {
                st.set(input - 1, input + add);
                assert(st@ =~= Seq::new(STATES as nat, |k: int| if lo <= k + 1 < input + 1 { (k + 1 + add) as usize } else { orig[k] }));
                input = input + 1;
            }
            assert(orig.len() == STATES);
            assert forall|k: int| 0 <= k < STATES implies #[trigger] st@[k] == apply_add(orig, lo as nat, hi as nat, add as nat)[k] by {
                if lo <= hi { assert(input == hi + 1); }
            }
            assert(st@ =~= apply_add(orig, lo as nat, hi as nat, add as nat));
        },
        None => {
            match get_attribute_usize(t, "set") {
                Some(set) => {
                    if lo <= hi && set > STATES {
                        return false;
                    }
                    let mut input = lo;
                    while input <= hi
                        invariant
                            lo <= input,
                            lo <= hi ==> 1 <= lo && hi <= STATES && set <= STATES,
                            lo <= hi ==> input <= hi + 1,
                            lo > hi ==> input == lo,
                            st@.len() == STATES,
                            st@ == Seq::new(STATES as nat, |k: int| if lo <= k + 1 < input { set } else { orig[k] }),
                        decreases hi + 1 - input,
                    {
                        st.set(input - 1, set);
                        assert(st@ =~= Seq::new(STATES as nat, |k: int| if lo <= k + 1 < input + 1 { set } else { orig[k] }));
                        input = input + 1;
                    }
                    assert(orig.len() == STATES);
                    assert forall|k: int| 0 <= k < STATES implies #[trigger] st@[k] == apply_set(orig, lo as nat, hi as nat, set as nat)[k] by {
                        if lo <= hi { assert(input == hi + 1); }
                    }
                    assert(st@ =~= apply_set(orig, lo as nat, hi as nat, set as nat));
                },
                None => {},
            }
        },
    }
    true
}

} // verus!

verus! {

/// What reading a growth file came to.
pub enum GrowthOutcome {
    /// the growth table
    Read(Growth),
    /// the file could not be read
    Failed(AbstractFileError),
    /// a period or state outside what the game has
    OutOfRange,
}

/// Twenty states that leave every state as it is.
fn zero_state_vec() -> (r: Vec<usize>)
    ensures
        r@ == zero_states(),
        states_wf(r@),
{
    let mut r: Vec<usize> = Vec::new();
    let mut k: usize = 0;
    while k < STATES
        invariant
            k <= STATES,
            r@ == Seq::new(k as nat, |s: int| 0usize),
        decreases STATES - k,
    {
        r.push(0);
        assert(r@ =~= Seq::new((k + 1) as nat, |s: int| 0usize));
        k = k + 1;
    }
    r
}

impl GrowCrops {
    /// A crop with no growth in any period.
    pub fn idle() -> (r: GrowCrops)
        ensures
            r@ == idle_crop(),
            crop_wf(r@),
    {
        let mut v: Vec<GrowCrop> = Vec::new();
        let mut p: usize = 0;
        while p < 12
            invariant
                p <= 12,
                v@.len() == p,
                forall|q: int| 0 <= q < p ==> #[trigger] v@[q]@ == idle_period(),
            decreases 12 - p,
        {
            let g = GrowCrop { new_states: GrowNewState(zero_state_vec()), plant: false };
            assert(g@ == idle_period());
            v.push(g);
            p = p + 1;
        }
        let r = GrowCrops(v);
        assert(r@ =~= idle_crop());
        r
    }
}

impl Growth {
    /// Read the children of a `<period>` from event `j` on: `None` where a state is out of range.
    fn read_period(evs: &Vec<XmlEvent>, j: usize) -> (r: Option<(Vec<usize>, usize)>)
        requires
            j <= evs@.len(),
        ensures
            match r {
                None => period_run(evs@, j as int, zero_states()) is OutOfRange,
                Some((st, k)) => period_run(evs@, j as int, zero_states()) == PeriodRead::Done(st@, k as int)
                    && j <= k <= evs@.len() && states_wf(st@),
            },
    {
        let mut st = zero_state_vec();
        let mut k: usize = j;
        while k < evs.len()
            invariant
                j <= k <= evs@.len(),
                states_wf(st@),
                period_run(evs@, k as int, st@) == period_run(evs@, j as int, zero_states()),
            decreases evs.len() - k,
        {
            match &evs[k] {
                XmlEvent::Empty(t) => {
                    if tag_is(t, "update") {
                        if !update_tag(t, &mut st) {
                            return None;
                        }
                    }
                },
                XmlEvent::End(n) => {
                    if str_eq(n.as_str(), "period") {
                        return Some((st, k + 1));
                    }
                },
                XmlEvent::Eof => { return Some((st, k)); },
                _ => {},
            }
            k = k + 1;
        }
        Some((st, k))
    }

    /// Mark period `idx` plantable where the tag says so.
    fn mark_plant(c: &mut GrowCrops, t: &XmlTag, idx: usize)
        requires
            1 <= idx <= 12,
            crop_wf(old(c)@),
        ensures
            final(c)@ == with_plant(old(c)@, *t, idx as int),
            crop_wf(final(c)@),
    {
        let yes = match get_attribute(t, "plantingAllowed") {
            Some(v) => str_eq(v.as_str(), "true"),
            None => false,
        };
        if yes {
            let ghost before = c@;
            let states = GrowNewState(c.0[idx - 1].new_states.0.clone());
            assert(states@ == before[idx - 1].new_states);
            c.0.set(idx - 1, GrowCrop { new_states: states, plant: true });
            assert(c@ =~= with_plant(before, *t, idx as int));
        }
    }

    /// Read the children of a `<fruit>` from event `j` on: `None` where a
    /// period or state is out of range.
    fn read_fruit(evs: &Vec<XmlEvent>, j: usize) -> (r: Option<(bool, GrowCrops, usize)>)
        requires
            j <= evs@.len(),
        ensures
            match r {
                None => fruit_run(evs@, j as int, false, idle_crop()) is OutOfRange,
                Some((seasonal, c, k)) => fruit_run(evs@, j as int, false, idle_crop()) == FruitRead::Done(seasonal, c@, k as int)
                    && j <= k <= evs@.len() && crop_wf(c@),
            },
    {
        let mut c = GrowCrops::idle();
        let mut seasonal = false;
        let mut k: usize = j;
        while k < evs.len()
            invariant
                j <= k <= evs@.len(),
                crop_wf(c@),
                fruit_run(evs@, k as int, seasonal, c@) == fruit_run(evs@, j as int, false, idle_crop()),
            decreases evs.len() - k,
        {
            let mut next: usize = k + 1;
            match &evs[k] {
                XmlEvent::Start(t) => {
                    if tag_is(t, "period") {
                        seasonal = true;
                        match get_attribute_usize(t, "index") {
                            None => {},
                            Some(idx) => {
                                if idx < 1 || idx > 12 {
                                    return None;
                                }
                                Self::mark_plant(&mut c, t, idx);
                                match Self::read_period(evs, k + 1) {
                                    None => { return None; },
                                    Some((st, after)) => {
                                        let ghost c1 = c@;
                                        let plant = c.0[idx - 1].plant;
                                        c.0.set(idx - 1, GrowCrop { new_states: GrowNewState(st), plant });
                                        assert(c@ =~= c1.update(idx - 1, GrowCropView { new_states: st@, ..c1[idx - 1] }));
                                        next = after;
                                    },
                                }
                            },
                        }
                    }
                },
                XmlEvent::Empty(t) => {
                    if tag_is(t, "period") {
                        seasonal = true;
                        match get_attribute_usize(t, "index") {
                            None => {},
                            Some(idx) => {
                                if idx < 1 || idx > 12 {
                                    return None;
                                }
                                Self::mark_plant(&mut c, t, idx);
                            },
                        }
                    }
                },
                XmlEvent::End(n) => {
                    if str_eq(n.as_str(), "fruit") {
                        return Some((seasonal, c, k + 1));
                    }
                },
                XmlEvent::Eof => { return Some((seasonal, c, k)); },
                _ => {},
            }
            k = next;
        }
        Some((seasonal, c, k))
    }

    /// Read a growth file from its XML events, telling apart the files whose
    /// periods or growth states lie outside what the game has.
    pub fn read_events(evs: &Vec<XmlEvent>) -> (r: GrowthOutcome)
        requires
            evs@.len() < i64::MAX,
        ensures
            match r {
                GrowthOutcome::Read(g) => spec_growth(evs@) == GrowthRead::Done(g@) && growth_wf(g@),
                GrowthOutcome::Failed(e) => spec_growth(evs@) == GrowthRead::Failed(e),
                GrowthOutcome::OutOfRange => spec_growth(evs@) is OutOfRange,
            },
    {
        let mut acc: StrMap<GrowCrops> = StrMap::new();
        let mut i: usize = 0;
        let mut depth: i64 = 0;
        let mut found = false;
        assert(acc@ =~= Seq::<(Seq<char>, Seq<GrowCropView>)>::empty());
        while i < evs.len()
            invariant
                i <= evs@.len(),
                evs@.len() < i64::MAX,
                -(i as int) <= depth <= i,
                growth_wf(acc@),
                growth_run(evs@, i as int, depth as int, found, acc@) == spec_growth(evs@),
            decreases evs.len() - i,
        {
            let mut next: usize = i + 1;
            match &evs[i] {
                XmlEvent::Error => { return GrowthOutcome::Failed(AbstractFileError::XmlParseError); },
                XmlEvent::Decl => { found = true; },
                XmlEvent::Eof => {
                    return if found { GrowthOutcome::Read(Growth(acc)) } else { GrowthOutcome::Failed(AbstractFileError::XmlUndeclared) };
                },
                XmlEvent::End(_) => { depth = depth - 1; },
                XmlEvent::Start(t) => {
                    if tag_is(t, "growth") && depth == 0 {
                        depth = depth + 1;
                    } else if tag_is(t, "fruit") && depth == 2 {
                        match get_attribute(t, "name") {
                            None => {},
                            Some(n) => {
                                match Self::read_fruit(evs, i + 1) {
                                    None => { return GrowthOutcome::OutOfRange; },
                                    Some((seasonal, c, k)) => {
                                        let chars = to_chars(n.as_str());
                                        let low = to_lower(chars.as_slice());
                                        let meadow = to_chars("meadow");
                                        if seasonal && !chars_eq(low.as_slice(), meadow.as_slice()) {
                                            let ghost before = acc@;
                                            acc.insert(from_chars(low.as_slice()), c);
                                            assert forall|x: int| 0 <= x < acc@.len() implies crop_wf(#[trigger] acc@[x].1) by {
                                                lemma_key_index(before, lower_seq(n@));
                                            }
                                        }
                                        next = k;
                                    },
                                }
                            },
                        }
                    } else if depth == 0 {
                        return GrowthOutcome::Failed(AbstractFileError::XmlWrongFileType);
                    } else {
                        depth = depth + 1;
                    }
                },
                _ => {},
            }
            i = next;
        }
        if found { GrowthOutcome::Read(Growth(acc)) } else { GrowthOutcome::Failed(AbstractFileError::XmlUndeclared) }
    }

    /// Read a growth file from its XML events.
    ///
    /// # Errors
    /// [`AbstractFileError::XmlParseError`] where the reader fails,
    /// [`AbstractFileError::XmlWrongFileType`] where the root tag is not
    /// `<growth>`, [`AbstractFileError::XmlUndeclared`] without an XML declaration.
    pub fn from_events(evs: &Vec<XmlEvent>) -> (r: Result<Growth, AbstractFileError>)
        requires
            evs@.len() < i64::MAX,
            !(spec_growth(evs@) is OutOfRange),
        ensures
            match r {
                Ok(g) => spec_growth(evs@) == GrowthRead::Done(g@) && growth_wf(g@),
                Err(e) => spec_growth(evs@) == GrowthRead::Failed(e),
            },
    {
        match Self::read_events(evs) {
            GrowthOutcome::Read(g) => Ok(g),
            GrowthOutcome::Failed(e) => Err(e),
            GrowthOutcome::OutOfRange => Err(AbstractFileError::XmlParseError),
        }
    }

    /// Read a growth file from text. A file with a period outside 1 to 12
    /// or a growth state outside 1 to 20 is refused as
    /// [`AbstractFileError::XmlParseError`].
    ///
    /// # Errors
    /// as [`Growth::from_events`] for the text's events.
    pub fn from_string(xml_text: &str) -> (r: Result<Growth, AbstractFileError>)
        ensures
            match r {
                Ok(g) => growth_wf(g@) && exists|evs: Seq<XmlEvent>| spec_growth(evs) == GrowthRead::Done(g@),
                Err(e) => e == AbstractFileError::XmlParseError
                    || exists|evs: Seq<XmlEvent>| spec_growth(evs) == GrowthRead::Failed(e),
            },
    {
        let evs = events_of(xml_text)?;
        match Self::read_events(&evs) {
            GrowthOutcome::Read(g) => Ok(g),
            GrowthOutcome::Failed(e) => Err(e),
            GrowthOutcome::OutOfRange => Err(AbstractFileError::XmlParseError),
        }
    }

    /// Read a growth file of a mod.
    ///
    /// # Errors
    /// the error reading the file gives, or as [`Growth::from_string`].
    pub fn from_abstract_file(mod_file: &AbstractFile, needle: &str) -> (r: Result<Growth, AbstractFileError>)
        ensures
            spec_text(*mod_file, needle@) matches Err(e) ==> r == Err::<Growth, AbstractFileError>(e),
            r matches Ok(g) ==> growth_wf(g@),
            spec_text(*mod_file, needle@) is Ok ==> (match r {
                    Ok(g) => growth_wf(g@) && exists|evs: Seq<XmlEvent>| spec_growth(evs) == GrowthRead::Done(g@),
                    Err(e) => e == AbstractFileError::XmlParseError
                        || exists|evs: Seq<XmlEvent>| spec_growth(evs) == GrowthRead::Failed(e),
                }),
    {
        let text = mod_file.text(needle)?;
        Growth::from_string(text.as_str())
    }
}

} // verus!
