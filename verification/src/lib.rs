//! `ttui` — a terminal UI framework built around layered buffers,
//! time-driven animation, and stateless widgets.
pub mod layout;
pub mod input;
pub mod time;
pub mod transition;
pub mod text;
pub mod snapshot;
pub mod widgets;
pub mod audio;
pub mod buffer;
pub mod theme;
pub mod canvas;
pub mod color;
pub mod redraw;
pub mod paint;
pub mod noise;
pub mod event_loop;
pub mod glitch;
pub mod grid;
