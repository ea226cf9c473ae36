//! Text-editing core of a code editor: a line buffer with cursor and
//! selection, and the remapping of stale syntax-highlight spans onto edited
//! lines.
pub mod actions;
pub mod atlas;
pub mod buffer;
pub mod color;
pub mod compositor;
pub mod css;
pub mod demo;
pub mod frame;
pub mod input;
pub mod keys;
pub mod laws;
pub mod menu;
pub mod model;
pub mod remap;
pub mod text;
pub mod token;
pub mod token_json;
pub mod viewport;
