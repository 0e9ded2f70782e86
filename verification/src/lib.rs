//! A terminal month-calendar core: it turns calendar files into a
//! time-ordered event index and lays the current month out as a 5x7 grid
//! of day cells, each holding a bounded, truncated list of event lines.

pub mod event;
pub mod index;
pub mod ingest;
pub mod state;
pub mod ui;
