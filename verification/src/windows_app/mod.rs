//! The settings window: what it shows, and what its controls do.

pub mod command;
pub mod laws;
pub mod layout;
pub mod mount;
pub mod qr_view;
pub mod save_run;
pub mod settings;
pub mod size;
pub mod storage_view;
