//! Overlay window lifecycle manager.
//!
//! The crate owns the state behind a small overlay-window manager: a
//! directory-backed store of layout records, a table of the overlay windows
//! currently on screen, and a dispatcher that serializes the actions a
//! management UI can issue against the two.  File and display operations are
//! carried out by the surrounding process; the functions here decide what has
//! to happen and account for every outcome those collaborators can report.

pub mod app;
pub mod controller;
pub mod errors;
pub mod layout_config;
pub mod store;

pub use app::{App, AppAction, CollaboratorReport, Effect, FormState};
pub use controller::WindowState;
pub use layout_config::LayoutConfig;
pub use store::Store;
