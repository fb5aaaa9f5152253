//! Verified core of the Openpad client: the protocol data model, the
//! application state and its reducer, the line diff, the side panels and the
//! message list, the tabs of the center dock, and the text formatting used to
//! present sessions, messages and steps.

pub mod text;
pub mod strmap;
pub mod secret;
pub mod types;
pub mod parts;
pub mod formatters;
pub mod tasks;
pub mod state;
pub mod actions;
pub mod reducer;
pub mod models;
pub mod laws;
pub mod diff;
pub mod messages;
pub mod steps;
pub mod panels;
pub mod handlers;
pub mod json;
pub mod sse;
pub mod events;
pub mod utils;
pub mod composer;
pub mod files;
pub mod session_tree;
pub mod working;
pub mod input;
pub mod tabs;
pub mod idmap;
pub mod dialogs;
