//! A plugin's side of a host protocol: strings whose ownership crosses the
//! plugin/host boundary, layered configuration lookup, an arena of named
//! module nodes composed into trees, handler dispatch, and the plugin's
//! load/unload lifecycle.
pub mod config;
pub mod ownership;
pub mod plugin;
pub mod tree;
