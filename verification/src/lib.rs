//! Selection, configuration and theme logic of a screen-region visual search tool.
#![allow(unused_imports)]

pub mod text;
pub mod capture;
pub mod config;
pub mod default_config;
pub mod engine;
pub mod theme;
pub mod search;
pub mod checks;
