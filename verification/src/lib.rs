//! Decisions of a terminal front end for CMake: which toolchains a host offers,
//! how CMake is called, and how its output and caches are read.
pub mod text;
pub mod text_set;
pub mod number;
pub mod platform;
pub mod version;
pub mod toolchain;
pub mod visual_studio;
pub mod vendor;
pub mod probe;
pub mod search_path;
pub mod scan;
pub mod string_map;
pub mod cache;
pub mod targets;
pub mod output;
pub mod runtime;
pub mod actions;
pub mod commands;
pub mod environment;
pub mod config;
pub mod status;
pub mod kits;
pub mod laws;
