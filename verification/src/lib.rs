//! Verified core of a desktop file-backup tool: the text, path, progress and
//! scheduling rules that decide what gets copied where and what the user is told.

pub mod text;
pub mod utility;
pub mod work;
pub mod app;
pub mod ui;
pub mod icon;
