//! Comparison of two directory trees, path by path.
//!
//! A tree is brought in as the plain list of what a walk of it has
//! enumerated. `get_dir_listing` turns that into a `DirListing`, the paths
//! relative to the root in ascending order of their text, each once.
//! `get_dir_diff` merges two listings into a diff: each path is `Removed`,
//! `Added` or `Common`, and a common path may carry what a probe of its content
//! has found. `render_dir_diff` and `diff_summary` give the lines in which a
//! diff is shown. Nothing here reads a file system or writes to a terminal.

pub mod cli;
pub mod diff;
pub mod laws;
pub mod listing;
pub mod order;
pub mod pattern;
pub mod relative;
pub mod render;
pub mod seq_facts;
pub mod summary;

pub use crate::cli::{check_cli_args, CliArgs, CliError, DirState};
pub use crate::diff::{
    content_status, get_dir_diff, needs_content, paths_to_probe, same_content, ContentStatus,
    DirDiff, PathProbe,
};
pub use crate::listing::{get_dir_listing, DirListing};
pub use crate::order::{compare_paths, PathOrder};
pub use crate::pattern::{glob_pattern_from_path_buf, glob_patterns};
pub use crate::relative::{
    contains_separator, count_separators, is_within_depth, relative_path,
};
pub use crate::render::{entry_is_shown, render_dir_diff, render_entry, DiffLine, LineColor};
pub use crate::summary::{
    append_decimal, count_dir_diff, diff_summary, summary_line, DiffCounts,
};
