//! Line editing, history, concurrent output and spinners for terminal programs.

pub mod abort_handle;
pub mod ansi;
pub mod history;
pub mod input;
pub mod line_laws;
pub mod line_state;
pub mod monitor_signal_task;
pub mod readline;
pub mod shared_writer;
pub mod spinner;
pub mod spinner_render;
pub mod spinner_style;
pub mod unicode;
