//! Atlas generation core: packing decisions, cache bookkeeping, graphic data
//! assembly and the small numeric and textual rules that drive them.

pub mod common;
pub mod math;
pub mod paths;
pub mod config;
pub mod graphics;
pub mod aseprite_data;
pub mod data;
pub mod foreign;
pub mod image;
pub mod cache;
pub mod cache_importer;
pub mod cache_exporter;
pub mod output;
pub mod state;
pub mod packer;
pub mod atlas_image;
pub mod data_processor;
pub mod processing;
pub mod aseprite;
pub mod laws;
