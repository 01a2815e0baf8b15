//! The decisions behind the popup: which report a key or button asks for,
//! what is cached, and how exports are named.

pub mod navigation;
pub mod state;
pub mod export;
pub mod report;
