# fs_mod_parser

Reads Farming Simulator mods (zip files or unzipped folders) and reports what
they hold: the file lists and their problems, `modDesc.xml`, translations,
map data, save games and store items, with badges that sum up the mod.

The library under `src/` is written in Verus: its functions state in their
contracts what they return, and Verus proves it. XML is read once into a
list of events (`xml.rs`) by quick_xml's reader; every file type is read
from that list by a function whose result is stated exactly as a spec
function over the events. Which events a text gives is quick_xml's own
work and is not stated, so the functions that read text or files state
what holds whatever events came back.

- `files.rs`: a mod's files as an in-memory listing, paths and base game paths
- `parser.rs`: the mod record, file counts, name checks, issues and badges
- `mod_desc.rs`, `l10n.rs`: `modDesc.xml` and translation files
- `savegame.rs`: career, farms and mods of a save game
- `map22/`, `maps/`: map configuration, crops, growth and weather
- `store_item/`: vehicles and placeables
- `collections.rs`, `text.rs`, `shared.rs`: ordered maps, text helpers, image names

`app/` is the command line program: it reads mods from disk, converts
images, works out what needs decimal numbers (motor curves, rates) and prints
JSON.
