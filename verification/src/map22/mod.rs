//! Maps (FS22): where a map's crop, growth and weather data come from, and
//! what they say.
use vstd::prelude::*;
use crate::errors::AbstractFileError;
use crate::files::{AbstractFile, spec_text, PathType, spec_unwrap_base_path, path_with_extension};
use crate::text::{contains_seq, str_contains};
use crate::xml::{XmlEvent, XmlTag, tag_attr, get_attribute, tag_is, events_of, opt_chars};
use crate::savegame::to_owned_str;
use environment::{Weather, Season, base_weather};
use crops::{Crops, base_crops};
use fruit_types::FruitTypes;
use growth::Growth;

pub mod fruit_types;
pub mod growth;
pub mod environment;
pub mod crops;

verus! {

/// Map config
#[derive(Debug)]
pub struct Config {
    /// overview image data
    pub image_data: Option<String>,
    /// overview image filename
    pub image_file: Option<String>,
    /// Fruit types file `<fruitTypes filename="$data/maps/mapUS/maps_fruitTypes.xml" />`
    pub fruit_types_file: Option<String>,
    /// key, if base game info
    pub fruit_types_base: Option<String>,
    /// Environment file `<environment filename="$data/maps/mapUS/environment.xml" />`
    pub environment_file: Option<String>,
    /// key, if base game info
    pub environment_base: Option<String>,
    /// Growth file `<growth filename="$data/maps/mapUS/maps_growth.xml" />`
    pub growth_file: Option<String>,
    /// key, if base game info
    pub growth_base: Option<String>,
}

/// Map config, as plain values.
pub struct ConfigView {
    /// overview image data
    pub image_data: Option<Seq<char>>,
    /// overview image filename
    pub image_file: Option<Seq<char>>,
    /// fruit types file
    pub fruit_types_file: Option<Seq<char>>,
    /// fruit types base key
    pub fruit_types_base: Option<Seq<char>>,
    /// environment file
    pub environment_file: Option<Seq<char>>,
    /// environment base key
    pub environment_base: Option<Seq<char>>,
    /// growth file
    pub growth_file: Option<Seq<char>>,
    /// growth base key
    pub growth_base: Option<Seq<char>>,
}

impl View for Config {
    type V = ConfigView;

    open spec fn view(&self) -> ConfigView {
        ConfigView {
            image_data: opt_chars(self.image_data),
            image_file: opt_chars(self.image_file),
            fruit_types_file: opt_chars(self.fruit_types_file),
            fruit_types_base: opt_chars(self.fruit_types_base),
            environment_file: opt_chars(self.environment_file),
            environment_base: opt_chars(self.environment_base),
            growth_file: opt_chars(self.growth_file),
            growth_base: opt_chars(self.growth_base),
        }
    }
}

/// A config before reading: everything from the US map.
pub open spec fn config_start() -> ConfigView {
    ConfigView {
        image_data: None, image_file: None,
        fruit_types_file: None, fruit_types_base: Some("mapUS"@),
        environment_file: None, environment_base: Some("mapUS"@),
        growth_file: None, growth_base: Some("mapUS"@),
    }
}

/// Exactly one of a base key and a file.
pub open spec fn one_of(base: Option<Seq<char>>, file: Option<Seq<char>>) -> bool {
    base is Some != file is Some
}

/// Each data source is either a base game key or a file of the mod.
pub open spec fn config_wf(c: ConfigView) -> bool {
    one_of(c.fruit_types_base, c.fruit_types_file) && one_of(c.environment_base, c.environment_file)
        && one_of(c.growth_base, c.growth_file)
}

/// Where a data file lies: `(base game key, mod file)`. Base game files of
/// the French or alpine map give their key, other base game files (and a
/// missing name) the US map's; other paths are files of the mod.
pub open spec fn resolve_data_file(filename: Option<Seq<char>>) -> (Option<Seq<char>>, Option<Seq<char>>) {
    match filename {
        None => (Some("mapUS"@), None),
        Some(f) => {
            let (base, v) = spec_unwrap_base_path(f);
            if base {
                if contains_seq(v, "mapFR"@) {
                    (Some("mapFR"@), None)
                } else if contains_seq(v, "mapAlpine"@) {
                    (Some("mapAlpine"@), None)
                } else {
                    (Some("mapUS"@), None)
                }
            } else {
                (None, Some(v))
            }
        },
    }
}

/// A self-closing tag of a map config applied.
pub open spec fn config_self_closing(c: ConfigView, t: XmlTag) -> ConfigView {
    let r = resolve_data_file(tag_attr(t, "filename"@));
    if t.name@ == "fruitTypes"@ {
        ConfigView { fruit_types_base: r.0, fruit_types_file: r.1, ..c }
    } else if t.name@ == "environment"@ {
        ConfigView { environment_base: r.0, environment_file: r.1, ..c }
    } else if t.name@ == "growth"@ {
        ConfigView { growth_base: r.0, growth_file: r.1, ..c }
    } else {
        c
    }
}

/// The overview image a `<map>` tag names, as a `.dds` file.
pub open spec fn map_image_file(t: XmlTag, c: ConfigView) -> Option<Seq<char>> {
    match tag_attr(t, "imageFilename"@) {
        Some(v) => Some(path_with_extension(spec_unwrap_base_path(v).1, "dds"@)),
        None => c.image_file,
    }
}

/// Reading a map config from event `i` on, with `depth` open tags.
pub open spec fn config_run(evs: Seq<XmlEvent>, i: int, depth: int, found: bool, c: ConfigView) -> Result<ConfigView, AbstractFileError>
    decreases evs.len() - i,
{
    if i < 0 || i >= evs.len() {
        if found { Ok(c) } else { Err(AbstractFileError::XmlUndeclared) }
    } else {
        match evs[i] {
            XmlEvent::Error => Err(AbstractFileError::XmlParseError),
            XmlEvent::Decl => config_run(evs, i + 1, depth, true, c),
            XmlEvent::Eof => if found { Ok(c) } else { Err(AbstractFileError::XmlUndeclared) },
            XmlEvent::End(_) => config_run(evs, i + 1, depth - 1, found, c),
            XmlEvent::Start(t) => if t.name@ == "map"@ && depth == 0 {
                config_run(evs, i + 1, depth + 1, found, ConfigView { image_file: map_image_file(t, c), ..c })
            } else if depth == 0 {
                Err(AbstractFileError::XmlWrongFileType)
            } else {
                config_run(evs, i + 1, depth + 1, found, c)
            },
            XmlEvent::Empty(t) => config_run(evs, i + 1, depth, found, config_self_closing(c, t)),
            _ => config_run(evs, i + 1, depth, found, c),
        }
    }
}

/// A map config read from its events.
pub open spec fn spec_config(evs: Seq<XmlEvent>) -> Result<ConfigView, AbstractFileError> {
    config_run(evs, 0, 0, false, config_start())
}

impl Config {
    /// Make new map record
    pub fn new() -> (r: Config)
        ensures
            r@ == config_start(),
            config_wf(r@),
    {
        Config {
            image_data: None, image_file: None,
            fruit_types_file: None, fruit_types_base: Some(to_owned_str("mapUS")),
            environment_file: None, environment_base: Some(to_owned_str("mapUS")),
            growth_file: None, growth_base: Some(to_owned_str("mapUS")),
        }
    }

    /// Resolve data resource to local file or base game data
    pub fn resolve_data_file(filename: Option<String>) -> (r: (Option<String>, Option<String>))
        ensures
            (opt_chars(r.0), opt_chars(r.1)) == resolve_data_file(opt_chars(filename)),
    {
        match filename {
            None => (Some(to_owned_str("mapUS")), None),
            Some(f) => match PathType::unwrap_base_path(f.as_str()) {
                PathType::Base(v) => {
                    if str_contains(v.as_str(), "mapFR") {
                        (Some(to_owned_str("mapFR")), None)
                    } else if str_contains(v.as_str(), "mapAlpine") {
                        (Some(to_owned_str("mapAlpine")), None)
                    } else {
                        (Some(to_owned_str("mapUS")), None)
                    }
                },
                PathType::Local(v) => (None, Some(v)),
            },
        }
    }

    /// Apply a self-closing tag.
    fn self_closing(&mut self, t: &XmlTag)
        ensures
            final(self)@ == config_self_closing(old(self)@, *t),
    {
        if tag_is(t, "fruitTypes") {
            let (base, local) = Self::resolve_data_file(get_attribute(t, "filename"));
            self.fruit_types_base = base;
            self.fruit_types_file = local;
        } else if tag_is(t, "environment") {
            let (base, local) = Self::resolve_data_file(get_attribute(t, "filename"));
            self.environment_base = base;
            self.environment_file = local;
        } else if tag_is(t, "growth") {
            let (base, local) = Self::resolve_data_file(get_attribute(t, "filename"));
            self.growth_base = base;
            self.growth_file = local;
        }
    }

    /// Read a map config from its XML events.
    ///
    /// # Errors
    /// [`AbstractFileError::XmlParseError`] where the reader fails,
    /// [`AbstractFileError::XmlWrongFileType`] where the root tag is not
    /// `<map>`, [`AbstractFileError::XmlUndeclared`] without an XML declaration.
    pub fn from_events(evs: &Vec<XmlEvent>) -> (r: Result<Config, AbstractFileError>)
        requires
            evs@.len() < i64::MAX,
        ensures
            match r {
                Ok(c) => spec_config(evs@) == Ok::<ConfigView, AbstractFileError>(c@) && config_wf(c@),
                Err(e) => spec_config(evs@) == Err::<ConfigView, AbstractFileError>(e),
            },
    {
        let mut c = Config::new();
        let mut i: usize = 0;
        let mut depth: i64 = 0;
        let mut found = false;
        while i < evs.len()
            invariant
                i <= evs@.len(),
                evs@.len() < i64::MAX,
                -(i as int) <= depth <= i,
                config_wf(c@),
                config_run(evs@, i as int, depth as int, found, c@) == spec_config(evs@),
            decreases evs.len() - i,
        {
            match &evs[i] {
                XmlEvent::Error => { return Err(AbstractFileError::XmlParseError); },
                XmlEvent::Decl => { found = true; },
                XmlEvent::Eof => {
                    return if found { Ok(c) } else { Err(AbstractFileError::XmlUndeclared) };
                },
                XmlEvent::End(_) => { depth = depth - 1; },
                XmlEvent::Start(t) => {
                    if tag_is(t, "map") && depth == 0 {
                        if let Some(image_file) = get_attribute(t, "imageFilename") {
                            let image_file = PathType::unwrap_base_path(image_file.as_str());
                            c.image_file = Some(image_file.to_dds());
                        }
                        depth = depth + 1;
                    } else if depth == 0 {
                        return Err(AbstractFileError::XmlWrongFileType);
                    } else {
                        depth = depth + 1;
                    }
                },
                XmlEvent::Empty(t) => { c.self_closing(t); },
                _ => {},
            }
            i = i + 1;
        }
        if found { Ok(c) } else { Err(AbstractFileError::XmlUndeclared) }
    }

    /// Read a map config from text.
    ///
    /// # Errors
    /// as [`Config::from_events`] for the text's events.
    pub fn from_string(xml_text: &str) -> (r: Result<Config, AbstractFileError>)
        ensures
            match r {
                Ok(c) => config_wf(c@) && exists|evs: Seq<XmlEvent>| spec_config(evs) == Ok::<ConfigView, AbstractFileError>(c@),
                Err(e) => e == AbstractFileError::XmlParseError
                    || exists|evs: Seq<XmlEvent>| spec_config(evs) == Err::<ConfigView, AbstractFileError>(e),
            },
    {
        let evs = events_of(xml_text)?;
        Config::from_events(&evs)
    }

    /// Read a map config of a mod.
    ///
    /// # Errors
    /// the error reading the file gives, or as [`Config::from_string`].
    pub fn from_abstract_file(mod_file: &AbstractFile, needle: &str) -> (r: Result<Config, AbstractFileError>)
        ensures
            spec_text(*mod_file, needle@) matches Err(e) ==> r == Err::<Config, AbstractFileError>(e),
            r matches Ok(c) ==> config_wf(c@),
            spec_text(*mod_file, needle@) is Ok ==> (match r {
                    Ok(c) => config_wf(c@) && exists|evs: Seq<XmlEvent>| spec_config(evs) == Ok::<ConfigView, AbstractFileError>(c@),
                    Err(e) => e == AbstractFileError::XmlParseError
                        || exists|evs: Seq<XmlEvent>| spec_config(evs) == Err::<ConfigView, AbstractFileError>(e),
                }),
    {
        let text = mod_file.text(needle)?;
        Config::from_string(text.as_str())
    }
}

} // verus!

verus! {

/// Map Definition
#[derive(Debug)]
pub struct Map22 {
    /// config data
    pub config: Config,
    /// crop data
    pub crops: Crops,
    /// weather data
    pub environment: Weather,
}

impl Map22 {
    /// Get map definition from mod file: `None` where the config, or a file
    /// it names, cannot be read.
    pub fn from_abstract_file(mod_file: &AbstractFile, needle: &str) -> (r: Option<Map22>)
        ensures
            spec_text(*mod_file, needle@) is Err ==> r is None,
            r matches Some(m) ==> {
                &&& config_wf(m.config@)
                &&& m.config@.environment_base matches Some(b) ==> m.environment == base_weather(b)
                &&& m.config@.growth_base is Some ==> m.crops@ == base_crops()
                &&& m.config@.environment_file matches Some(f) ==> spec_text(*mod_file, f) is Ok
                &&& m.config@.growth_file matches Some(f) ==> spec_text(*mod_file, f) is Ok
                &&& (m.config@.growth_base is None && m.config@.fruit_types_file is Some)
                    ==> spec_text(*mod_file, m.config@.fruit_types_file.unwrap()) is Ok
            },
    {
        let config = match Config::from_abstract_file(mod_file, needle) {
            Ok(c) => c,
            Err(_) => { return None; },
        };
        let environment = if let Some(base_weather) = &config.environment_base {
            Weather::from_base(base_weather.as_str())
        } else if let Some(local_weather) = &config.environment_file {
            match Weather::from_abstract_file(mod_file, local_weather.as_str()) {
                Ok(w) => w,
                Err(_) => { return None; },
            }
        } else {
            Weather {
                spring: Season { min: 0, max: 0 }, summer: Season { min: 0, max: 0 },
                autumn: Season { min: 0, max: 0 }, winter: Season { min: 0, max: 0 },
            }
        };
        let crops = if config.growth_base.is_some() {
            Crops::from_base()
        } else {
            let fruits = if let Some(fruit_file) = &config.fruit_types_file {
                match FruitTypes::from_abstract_file(mod_file, fruit_file.as_str()) {
                    Ok(f) => f,
                    Err(_) => { return None; },
                }
            } else {
                FruitTypes::from_base()
            };
            if let Some(growth_file) = &config.growth_file {
                let growth = match Growth::from_abstract_file(mod_file, growth_file.as_str()) {
                    Ok(g) => g,
                    Err(_) => { return None; },
                };
                Crops::from_files(&fruits, &growth)
            } else {
                return None;
            }
        };
        Some(Map22 { config, crops, environment })
    }
}

} // verus!
