//! Verified core of a Neovim GUI front end: the grid and editor state that
//! Neovim's `ext_linegrid` redraw protocol maintains, the MessagePack-RPC
//! message model and the session's decisions (what a message does, what is
//! sent back), keys and mouse events in Neovim's notation, the renderer's
//! row cache and layout decisions, and the small text utilities (guifont and
//! font matching, window titles, file URLs, command-line arguments, input
//! method ranges) that the front end relies on.
pub mod state;
pub mod value;
pub mod protocol;
pub mod text;
pub mod events;
pub mod input;
pub mod platform;
pub mod font;
pub mod titlebar;
pub mod window;
pub mod mouse;
pub mod render;
pub mod session;
pub mod commands;
pub mod ime;
pub mod laws;
pub mod actions;
pub mod assets;
pub mod msgpack;
pub mod key_names;
