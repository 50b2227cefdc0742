//! Verified core of a dotfile manager: configuration checks, path resolution,
//! sync and restore planning, a sync run as a dialogue with the file system,
//! backup-name parsing, diff summaries, the state machine behind the terminal
//! interface and the text its screen shows.

pub mod text;
pub mod path;
pub mod error;
pub mod config;
pub mod stamp;
pub mod restore;
pub mod diff;
pub mod sort;
pub mod manager;
pub mod sync;
pub mod tui;
pub mod display;

pub use error::ManagerError;
pub use manager::DotfileManager;
