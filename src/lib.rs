//! A line-oriented pattern filter: selects the lines of each source that a
//! regular expression matches (or, inverted, does not match) and renders them
//! according to a small set of output flags.

pub mod config;
pub mod laws;
pub mod pattern;
pub mod processing;
pub mod render;

pub use config::{Config, InputSource, OutputTarget, STDIN_NAME};
pub use pattern::{GrepError, Pattern};
pub use processing::{exit_code, process_input, process_lines, render_match, scan_sources};
