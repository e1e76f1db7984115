//! Ready-to-render widgets: each takes an explicit value and a target
//! area, with no internal animation state.
pub mod table;
pub mod smash_border;
pub mod cockpit_panel;
pub mod block;
pub mod analog_toggle;
pub mod text;
pub mod selection;
pub mod dna_console;
pub mod list;
pub mod damage_meter;
pub mod dial;
pub mod scuttle_cursor;
pub mod energy_core;
pub mod bar_chart;
pub mod sparkline;
