//! A minimal terminal UI toolkit: rectangular boxes with draw and
//! interaction callbacks, a dirty-tracking render engine, an SGR mouse
//! protocol decoder, and an event dispatcher with drag-target stickiness.

pub mod chars;
pub mod geom;
pub mod hooks;
pub mod input;
pub mod laws;
pub mod render;
pub mod ui;
