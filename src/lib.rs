//! Core model of a terminal browser for scientific data files: directory
//! listings, a text viewer with chart detection, peak-preserving downsampling
//! of numeric series, a recent-files registry and the key-driven state machine
//! that composes them.
pub mod directory;
pub mod downsample;
pub mod format;
pub mod layout;
pub mod recent;
pub mod series;
pub mod startup;
pub mod state;
pub mod text;
pub mod viewer;

pub use directory::{listing_before, scroll_for, sort_entries, DirectoryEntry, DirectoryModel};
pub use downsample::{chart_target_points, downsample_indices};
pub use format::{decimal_text, format_size};
pub use layout::{
    content_title, entry_kind, line_number_width, popup_area, style_for, tree_title, visible_rows,
    EntryKind, Rgb,
};
pub use recent::{RecentFiles, MAX_RECENT};
pub use series::{chart_candidates, data_fields, is_chart_data, split_lines, MIN_CHART_SAMPLES};
pub use startup::{marker_contents, remembered_directory, start_directory};
pub use state::{welcome_lines, Action, AppState, Key};
pub use viewer::{FileMeta, FileViewer, BINARY_FILE_LINE, EMPTY_FILE_LINE};
