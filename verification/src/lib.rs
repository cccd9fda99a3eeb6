//! The modal interaction engine of a keyboard-driven mail console: key
//! resolution, the mode machine, the filter stack, the deferred backend
//! refresh, and the scan of message bodies for links.

pub mod keymap;
pub mod text;
pub mod data;
pub mod command;
pub mod links;
pub mod reply;
pub mod app;
