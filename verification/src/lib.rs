//! The Quark cloud drive as a directory of the Windows file explorer: what is
//! asked of the drive and made of its replies, what the file system is shown and
//! told, and what the settings window does.

pub mod checksum;
pub mod cli;
pub mod cloud_files;
pub mod config;
pub mod digits;
pub mod json;
pub mod logging;
pub mod names;
pub mod order;
pub mod path;
pub mod quark;
pub mod text;
pub mod wide;
pub mod windows_app;
