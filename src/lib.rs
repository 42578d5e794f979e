//! Marine radar integration core: wire codecs, controller state machines,
//! discovery bookkeeping, spoke processing and ARPA building blocks.

pub mod capabilities;
pub mod contour;
pub mod doppler;
pub mod furuno;
pub mod furuno_command;
pub mod furuno_controller;
pub mod guard_zone;
pub mod history;
pub mod io;
pub mod locator;
pub mod navico;
pub mod navico_command;
pub mod navico_controller;
pub mod navico_report;
pub mod provider;
pub mod raymarine;
pub mod raymarine_command;
pub mod spokes;
pub mod state;
pub mod text;
pub mod trails;
