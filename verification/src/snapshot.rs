//! Headless visual-snapshot tooling: the pure parts of driving an
//! example app through a script and judging its captures.
pub mod keys;
pub mod glyph;
pub mod pty;
pub mod color;
pub mod render;
pub mod screen;
pub mod png;
pub mod cli;
pub mod judge;
pub mod script;
