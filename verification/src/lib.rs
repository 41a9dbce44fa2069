//! sv-mint: the verified core of a SystemVerilog lint pipeline.
pub mod cli;
pub mod config;
pub mod default_scripts;
pub mod diag;
pub mod engine;
pub mod errors;
pub mod filelist;
pub mod output;
pub mod plugin;
pub mod strings;
pub mod svparser;
pub mod sv;
pub mod textutil;
pub mod types;
