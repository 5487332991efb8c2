//! Environment (weather) of a map: the lowest and highest temperature of each season.
use vstd::prelude::*;
use crate::errors::AbstractFileError;
use crate::files::{AbstractFile, spec_text};
use crate::text::{to_chars, str_eq, signed_text_value, parse_signed};
use crate::xml::{XmlEvent, XmlTag, tag_attr, get_attribute, tag_is, events_of};

verus! {

/// Season min/max temp
#[derive(Debug, Clone, Copy, PartialEq, Eq, Structural)]
pub struct Season {
    /// minimum temperature
    pub min: i32,
    /// maximum temperature
    pub max: i32,
}

/// Map weather
#[derive(Debug, Clone, Copy, PartialEq, Eq, Structural)]
pub struct Weather {
    /// spring
    pub spring: Season,
    /// summer
    pub summer: Season,
    /// fall
    pub autumn: Season,
    /// winter
    pub winter: Season,
}

/// A season.
pub open spec fn season(min: i32, max: i32) -> Season {
    Season { min, max }
}

/// Base game weather of the US and French maps (FS22).
pub open spec fn weather_us() -> Weather {
    Weather { spring: season(6, 18), summer: season(13, 34), autumn: season(5, 25), winter: season(-11i32, 10) }
}

/// Base game weather of the alpine map (FS22).
pub open spec fn weather_alpine() -> Weather {
    Weather { spring: season(5, 18), summer: season(10, 30), autumn: season(4, 22), winter: season(-12i32, 8) }
}

/// Base game weather by map key; unknown keys get the US map's.
pub open spec fn base_weather(name: Seq<char>) -> Weather {
    if name == "mapAlpine"@ { weather_alpine() } else { weather_us() }
}

/// std's `str::parse::<i32>`, 0 where it fails.
pub open spec fn i32_or_zero(s: Seq<char>) -> i32 {
    match signed_text_value(s) {
        Some(v) => if i32::MIN <= v <= i32::MAX { v as i32 } else { 0 },
        None => 0,
    }
}

/// An attribute read as an `i32`, 0 where it does not parse; `None` where the tag lacks it.
pub open spec fn attr_i32(t: XmlTag, name: Seq<char>) -> Option<i32> {
    match tag_attr(t, name) {
        Some(v) => Some(i32_or_zero(v)),
        None => None,
    }
}

/// The temperatures a `<variation>` start tag leaves, from `(min, max)`.
pub open spec fn variation(t: XmlTag, min: i32, max: i32) -> (i32, i32) {
    if t.name@ == "variation"@ {
        (match attr_i32(t, "minTemperature"@) { Some(v) => if v < min { v } else { min }, None => min },
         match attr_i32(t, "maxTemperature"@) { Some(v) => if v > max { v } else { max }, None => max })
    } else {
        (min, max)
    }
}

/// Reading the children of a `<season>` from event `j` on: the lowest and
/// highest temperature and where reading goes on. Only `<variation>` start
/// tags count; at the end of the document reading stops there.
pub open spec fn season_run(evs: Seq<XmlEvent>, j: int, min: i32, max: i32) -> (i32, i32, int)
    decreases evs.len() - j,
{
    if j < 0 || j >= evs.len() {
        (min, max, evs.len() as int)
    } else {
        match evs[j] {
            XmlEvent::Start(t) => {
                let (a, b) = variation(t, min, max);
                season_run(evs, j + 1, a, b)
            },
            XmlEvent::End(n) => if n@ == "season"@ { (min, max, j + 1) } else { season_run(evs, j + 1, min, max) },
            XmlEvent::Eof => (min, max, j),
            _ => season_run(evs, j + 1, min, max),
        }
    }
}

/// The weather with season `name` set.
pub open spec fn set_season(w: Weather, name: Seq<char>, min: i32, max: i32) -> Weather {
    if name == "spring"@ {
        Weather { spring: season(min, max), ..w }
    } else if name == "summer"@ {
        Weather { summer: season(min, max), ..w }
    } else if name == "autumn"@ {
        Weather { autumn: season(min, max), ..w }
    } else if name == "winter"@ {
        Weather { winter: season(min, max), ..w }
    } else {
        w
    }
}

/// Reading an environment file from event `i` on, with `depth` open tags.
pub open spec fn weather_run(evs: Seq<XmlEvent>, i: int, depth: int, found: bool, w: Weather) -> Result<Weather, AbstractFileError>
    decreases evs.len() - i,
{
    if i < 0 || i >= evs.len() {
        if found { Ok(w) } else { Err(AbstractFileError::XmlUndeclared) }
    } else {
        match evs[i] {
            XmlEvent::Error => Err(AbstractFileError::XmlParseError),
            XmlEvent::Decl => weather_run(evs, i + 1, depth, true, w),
            XmlEvent::Eof => if found { Ok(w) } else { Err(AbstractFileError::XmlUndeclared) },
            XmlEvent::End(_) => weather_run(evs, i + 1, depth - 1, found, w),
            XmlEvent::Start(t) => if t.name@ == "environment"@ && depth == 0 {
                weather_run(evs, i + 1, depth + 1, found, w)
            } else if t.name@ == "season"@ && depth == 2 {
                match tag_attr(t, "name"@) {
                    None => weather_run(evs, i + 1, depth, found, w),
                    Some(n) => {
                        let (min, max, k) = season_run(evs, i + 1, i32::MAX, i32::MIN);
                        if i < k <= evs.len() {
                            weather_run(evs, k, depth, found, set_season(w, n, min, max))
                        } else {
                            Err(AbstractFileError::XmlParseError)
                        }
                    },
                }
            } else if depth == 0 {
                Err(AbstractFileError::XmlWrongFileType)
            } else {
                weather_run(evs, i + 1, depth + 1, found, w)
            },
            _ => weather_run(evs, i + 1, depth, found, w),
        }
    }
}

/// An environment file read from its events, starting from the US map's weather.
pub open spec fn spec_weather(evs: Seq<XmlEvent>) -> Result<Weather, AbstractFileError> {
    weather_run(evs, 0, 0, false, weather_us())
}

/// Read an attribute as an `i32`.
fn get_attribute_i32(t: &XmlTag, name: &str) -> (r: Option<i32>)
    ensures
        r == attr_i32(*t, name@),
{
    match get_attribute(t, name) {
        Some(v) => {
            let c = to_chars(v.as_str());
            match parse_signed(c.as_slice(), 2147483648) {
                Some(x) => if x <= 2147483647 { Some(x as i32) } else { Some(0) },
                None => Some(0),
            }
        },
        None => None,
    }
}

impl Weather {
    /// Get weather from a base game key.
    pub fn from_base(name: &str) -> (r: Weather)
        ensures
            r == base_weather(name@),
    {
        if str_eq(name, "mapAlpine") {
            Weather {
                spring: Season { min: 5, max: 18 }, summer: Season { min: 10, max: 30 },
                autumn: Season { min: 4, max: 22 }, winter: Season { min: -12, max: 8 },
            }
        } else {
            Weather {
                spring: Season { min: 6, max: 18 }, summer: Season { min: 13, max: 34 },
                autumn: Season { min: 5, max: 25 }, winter: Season { min: -11, max: 10 },
            }
        }
    }

    /// Read the children of a `<season>` from event `j` on.
    fn read_season(evs: &Vec<XmlEvent>, j: usize) -> (r: (i32, i32, usize))
        requires
            j <= evs@.len(),
        ensures
            season_run(evs@, j as int, i32::MAX, i32::MIN) == (r.0, r.1, r.2 as int),
            j <= r.2 <= evs@.len(),
    {
        let mut min: i32 = i32::MAX;
        let mut max: i32 = i32::MIN;
        let mut k: usize = j;
        while k < evs.len()
            invariant
                j <= k <= evs@.len(),
                season_run(evs@, k as int, min, max) == season_run(evs@, j as int, i32::MAX, i32::MIN),
            decreases evs.len() - k,
        {
            match &evs[k] {
                XmlEvent::Start(t) => {
                    if tag_is(t, "variation") {
                        if let Some(v) = get_attribute_i32(t, "minTemperature") {
                            if v < min { min = v; }
                        }
                        if let Some(v) = get_attribute_i32(t, "maxTemperature") {
                            if v > max { max = v; }
                        }
                    }
                },
                XmlEvent::End(n) => {
                    if str_eq(n.as_str(), "season") {
                        return (min, max, k + 1);
                    }
                },
                XmlEvent::Eof => { return (min, max, k); },
                _ => {},
            }
            k = k + 1;
        }
        (min, max, k)
    }

    /// Set season `name`.
    fn set_season(&mut self, name: &str, min: i32, max: i32)
        ensures
            *final(self) == set_season(*old(self), name@, min, max),
    {
        if str_eq(name, "spring") {
            self.spring = Season { min, max };
        } else if str_eq(name, "summer") {
            self.summer = Season { min, max };
        } else if str_eq(name, "autumn") {
            self.autumn = Season { min, max };
        } else if str_eq(name, "winter") {
            self.winter = Season { min, max };
        }
    }

    /// Read an environment file from its XML events.
    ///
    /// # Errors
    /// [`AbstractFileError::XmlParseError`] where the reader fails,
    /// [`AbstractFileError::XmlWrongFileType`] where the root tag is not
    /// `<environment>`, [`AbstractFileError::XmlUndeclared`] without an XML declaration.
    pub fn from_events(evs: &Vec<XmlEvent>) -> (r: Result<Weather, AbstractFileError>)
        requires
            evs@.len() < i64::MAX,
        ensures
            match r {
                Ok(w) => spec_weather(evs@) == Ok::<Weather, AbstractFileError>(w),
                Err(e) => spec_weather(evs@) == Err::<Weather, AbstractFileError>(e),
            },
    {
        let mut w = Weather {
            spring: Season { min: 6, max: 18 }, summer: Season { min: 13, max: 34 },
            autumn: Season { min: 5, max: 25 }, winter: Season { min: -11, max: 10 },
        };
        assert(w == weather_us());
        let mut i: usize = 0;
        let mut depth: i64 = 0;
        let mut found = false;
        while i < evs.len()
            invariant
                i <= evs@.len(),
                evs@.len() < i64::MAX,
                -(i as int) <= depth <= i,
                weather_run(evs@, i as int, depth as int, found, w) == spec_weather(evs@),
            decreases evs.len() - i,
        {
            let mut next: usize = i + 1;
            match &evs[i] {
                XmlEvent::Error => { return Err(AbstractFileError::XmlParseError); },
                XmlEvent::Decl => { found = true; },
                XmlEvent::Eof => {
                    return if found { Ok(w) } else { Err(AbstractFileError::XmlUndeclared) };
                },
                XmlEvent::End(_) => { depth = depth - 1; },
                XmlEvent::Start(t) => {
                    if tag_is(t, "environment") && depth == 0 {
                        depth = depth + 1;
                    } else if tag_is(t, "season") && depth == 2 {
                        match get_attribute(t, "name") {
                            None => {},
                            Some(n) => {
                                let (min, max, k) = Self::read_season(evs, i + 1);
                                w.set_season(n.as_str(), min, max);
                                next = k;
                            },
                        }
                    } else if depth == 0 {
                        return Err(AbstractFileError::XmlWrongFileType);
                    } else {
                        depth = depth + 1;
                    }
                },
                _ => {},
            }
            i = next;
        }
        if found { Ok(w) } else { Err(AbstractFileError::XmlUndeclared) }
    }

    /// Read an environment file from text.
    ///
    /// # Errors
    /// as [`Weather::from_events`] for the text's events.
    pub fn from_string(xml_text: &str) -> (r: Result<Weather, AbstractFileError>)
        ensures
            match r {
                Ok(w) => exists|evs: Seq<XmlEvent>| spec_weather(evs) == Ok::<Weather, AbstractFileError>(w),
                Err(e) => e == AbstractFileError::XmlParseError
                    || exists|evs: Seq<XmlEvent>| spec_weather(evs) == Err::<Weather, AbstractFileError>(e),
            },
    {
        let evs = events_of(xml_text)?;
        Weather::from_events(&evs)
    }

    /// Read an environment file of a mod.
    ///
    /// # Errors
    /// the error reading the file gives, or as [`Weather::from_string`].
    pub fn from_abstract_file(mod_file: &AbstractFile, needle: &str) -> (r: Result<Weather, AbstractFileError>)
        ensures
            spec_text(*mod_file, needle@) matches Err(e) ==> r == Err::<Weather, AbstractFileError>(e),
            spec_text(*mod_file, needle@) is Ok ==> (match r {
                    Ok(w) => exists|evs: Seq<XmlEvent>| spec_weather(evs) == Ok::<Weather, AbstractFileError>(w),
                    Err(e) => e == AbstractFileError::XmlParseError
                        || exists|evs: Seq<XmlEvent>| spec_weather(evs) == Err::<Weather, AbstractFileError>(e),
                }),
    {
        let text = mod_file.text(needle)?;
        Weather::from_string(text.as_str())
    }
}

} // verus!
