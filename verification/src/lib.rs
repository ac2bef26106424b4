//! Core of a terminal dashboard that shows several multiplexer panes at once:
//! tail-clipping of styled pane text to a viewport, the grid that places the
//! panes, spatial navigation between them, and the snapshot and selection
//! state behind the event loop.

pub mod app;
pub mod capture;
pub mod clip;
pub mod clip_laws;
pub mod command_runner;
pub mod config;
pub mod descriptor;
pub mod document;
pub mod error;
pub mod events;
pub mod frame;
pub mod instance;
pub mod instances;
pub mod layout;
pub mod list_entry;
pub mod metrics;
pub mod navigate;
pub mod pane;
pub mod resume;
pub mod row_cursor;
pub mod rows;
pub mod slice;
pub mod style;
pub mod text;
pub mod tmux;
pub mod wrap_laws;
