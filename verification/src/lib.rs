//! Core logic of a retro desktop environment: window management, a virtual
//! file system, a terminal and a handful of small desktop applications.

pub mod text;
pub mod terminal;
pub mod window_manager;
pub mod taskbar;
pub mod vfs;
pub mod clippy;
pub mod app_state;
pub mod file_manager;
pub mod apps;
pub mod login;
pub mod desktop;
pub mod contact;
pub mod projects_gallery;
pub mod markdown;
pub mod serve;
