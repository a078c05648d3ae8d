//! Core tiling logic of the Mondrian window manager: geometry of screen
//! areas, container keys and layers, focus history, floating windows,
//! configuration lookup and the decisions taken by the tiles manager.

pub mod geometry;
pub mod window;
pub mod window_map;
pub mod focus_history;
pub mod monitor;
pub mod floating;
pub mod result;
pub mod containers;
pub mod named;
pub mod animation;
pub mod configs;
pub mod tm_configs;
pub mod utils;
pub mod search;
pub mod tm;
pub mod rules;
pub mod key;
pub mod events;
pub mod placement;
pub mod workspaces;
pub mod tray;
pub mod dispatcher;
pub mod commands;
pub mod focus;
pub mod laws;
pub mod window_rules;
