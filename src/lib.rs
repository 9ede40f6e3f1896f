//! Pick a color theme and merge its colors into a terminal emulator's
//! configuration, recording the active theme in a small state document.

pub mod catalog;
pub mod cli;
pub mod document;
pub mod paths;
pub mod store;
pub mod text;
