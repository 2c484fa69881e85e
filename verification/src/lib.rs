use vstd::prelude::*;

pub mod limits;
pub mod text;
pub mod text_style;
pub mod backlog;
pub mod hotkey;
pub mod hook_config;
pub mod translation_config;
pub mod config;
pub mod app_state;
pub mod cli;
pub mod rendering;
pub mod bench;
pub mod clipboard;
pub mod secret;
pub mod llm_provider;
pub mod config_tree;

verus! {

} // verus!
