//! Core logic of a local manager for llama.cpp servers: GGUF header parsing,
//! release/asset classification, model-file naming, server supervision policy
//! and the small text utilities they share.

pub mod text;
pub mod order;
pub mod gguf;
pub mod github;
pub mod paths;
pub mod builds;
pub mod download;
pub mod huggingface;
pub mod vram;
pub mod meminfo;
pub mod params;
pub mod presets;
pub mod config;
pub mod process_mgr;
pub mod logger;
pub mod theme;
pub mod ui;
