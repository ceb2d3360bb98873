//! Catalog, selection rules, platform font directories and archive
//! extraction for a Nerd Fonts installer.

pub mod catalog;
pub mod dispatch;
pub mod error;
pub mod pipeline;
pub mod platform;
pub mod selector;
pub mod text;
