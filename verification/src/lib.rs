//! Core logic of a set of terminal widgets: list selections, text ranges
//! with their style map, popup placement, splitter layout, buttons and
//! status messages.

pub mod _private;
pub mod button;
pub mod event;
pub mod ftable_noselection;
pub mod geometry;
pub mod message;
pub mod noselection;
pub mod outside;
pub mod popup;
pub mod selected;
pub mod splitter;
pub mod table;
pub mod textarea_core;
pub mod undo;
