//! The verified core of a read-only LOOT server: what it parses, what it decides and what it
//! answers. Reading files and driving libloot is left to the program around this library.

pub mod cache;
pub mod diagnostics;
pub mod errors;
pub mod evaluate;
pub mod game;
pub mod layout;
pub mod load_order;
pub mod masters;
pub mod messages;
pub mod metadata;
pub mod mods;
pub mod names;
pub mod paging;
pub mod paths;
pub mod plugin_index;
pub mod plugin_query;
pub mod prepare;
pub mod profile;
pub mod request;
pub mod settings;
pub mod text;
pub mod timings;
pub mod version;
