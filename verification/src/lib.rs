//! LEAN: a headless coding-agent runtime. This crate holds its verified core:
//! configuration schema and validation, the command sandbox policy, tool-use
//! parsing, prompt bundles, session event sequencing and workspace planning.

pub mod catalog;
pub mod config;
pub mod doctor;
pub mod paths;
pub mod events;
pub mod text;
pub mod yaml;
pub mod json;
pub mod tool_use;
pub mod prompts;
pub mod sandbox;
pub mod provider;
pub mod session;
pub mod read_tools;
pub mod audit;
pub mod cli;
pub mod workspace;
