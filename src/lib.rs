//! A plugin manager for zsh: it fetches and builds the plugins that a
//! configuration declares, records their progress in a state file, and
//! produces the script that loads them.
pub mod cli;
pub mod config;
pub mod paths;
pub mod script;
pub mod storage;
