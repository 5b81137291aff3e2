//! Verified core of the Gaia LLM serving manager.

pub mod text;
pub mod config;
pub mod command_spec;
pub mod machine;
pub mod backend;
pub mod model_catalog;
pub mod recommendation;
pub mod hf_catalog;
pub mod selector;
pub mod order;
pub mod wizard;
pub mod serve;
pub mod artifacts;
pub mod refresh;
pub mod mock_api;
pub mod output;
pub mod cli;
pub mod process;
pub mod tui;
pub mod panels;
