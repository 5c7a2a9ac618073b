//! A dual-panel file manager's state, navigation and file-operation logic.
pub mod app;
pub mod fs_ops;
pub mod highlight;
pub mod laws;
pub mod listing;
pub mod panel;
pub mod paths;
pub mod text;
pub mod ui;
pub mod version;
