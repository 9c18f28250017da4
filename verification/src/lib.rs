//! PathForge: the verified core of a looping-path animation generator.
pub mod bloom;
pub mod cobble;
pub mod defaults;
pub mod frames;
pub mod gif_export;
pub mod gif_stream;
pub mod gpu;
pub mod instances;
pub mod kinds;
pub mod layers;
pub mod lighting;
pub mod listing;
pub mod names;
pub mod node_lab;
pub mod patterns;
pub mod presets;
pub mod project_export;
pub mod raster;
pub mod renderer;
pub mod rng;
pub mod rounding;
pub mod settings;
pub mod sparkle;
pub mod sprites;
pub mod studio;
pub mod text;
pub mod tile_gen;
pub mod tiles;
pub mod wear;
