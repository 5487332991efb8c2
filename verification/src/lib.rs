//! Parsing and checking of Farming Simulator mod files, save games and maps.
//!
//! The library holds the rules: what a mod archive's file list, its
//! `modDesc.xml`, its map files and a save game's XML files say about the mod.
//! Reading archives and folders from disk, decoding images and JSON output
//! are left to the program around it.
use vstd::prelude::*;

pub mod text;
pub mod xml;
pub mod errors;
pub mod collections;
pub mod files;
pub mod savegame;
pub mod l10n;
pub mod mod_desc;
pub mod map22;
pub mod store_item;
pub mod parser;
pub mod maps;
pub mod shared;

verus! {

} // verus!
