//! Sorting media files into `<destination>/<year>/<month>` folders by capture
//! date: the date is read from the metadata tool's output where it gives one
//! and taken from the file's modification time otherwise; names that are
//! taken get a numeric suffix; a move across devices is a copy that is
//! checked before the source is deleted.
pub mod classify;
pub mod date;
pub mod exiftool;
pub mod path;
pub mod plan;
pub mod process;
pub mod relocate;
pub mod resolve;
pub mod stats;
pub mod text;

pub use classify::is_media_file;
pub use exiftool::get_exiftool_path;
pub use stats::Stats;
