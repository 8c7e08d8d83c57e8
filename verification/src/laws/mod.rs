//! Laws: what the operations of the library promise, in terms of what goes in and what comes out.
pub mod text;
pub mod targets;
pub mod commands;
pub mod cache;
pub mod scan;
pub mod versions;
pub mod studio;
pub mod environment;
pub mod output;
pub mod running;
pub mod config;
pub mod kits;
pub mod report;
pub mod basics;
pub mod offers;
pub mod order;
pub mod installations;
