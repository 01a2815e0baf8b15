//! Software updates for Nix: the logic behind the SUNix report viewer.
pub mod text;
pub mod bytes;
pub mod model;
pub mod version_order;
pub mod dix;
pub mod format;
pub mod report_markdown;
pub mod cli;
pub mod config;
pub mod command;
pub mod report_pdf;
pub mod ui;
