//! Verified core of a power-user file manager: navigation history, listing
//! order, size and date rendering, rename rules, keybinding tables and the
//! small text formats the application reads and writes.

pub mod text;
pub mod paths;
pub mod navigation;
pub mod format;
pub mod listing;
pub mod settings;
pub mod selection;
pub mod keybindings;
pub mod cloud;
pub mod pattern;
pub mod rename;
pub mod search;
pub mod archive;
pub mod lines;
pub mod places;
pub mod tags;
pub mod crumbs;
pub mod preview;
pub mod sorters;
pub mod commands;
pub mod fileops;
pub mod plugins;
pub mod panes;
