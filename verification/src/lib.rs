//! Glint: the state, rules and bookkeeping of a photo viewer and light editor.
//!
//! The crate holds the parts of the viewer that decide things: which files a
//! folder shows and in what order, how the browser moves through them, how the
//! decoded-image cache spends its memory budget, how images, thumbnails and
//! metadata are read from a file's bytes, how gallery selections react
//! to clicks, which path an export is written to, what the keyboard shortcuts
//! ask for, and which registry commands the Windows integration runs.

pub mod browser;
pub mod cache;
pub mod controls;
pub mod editor;
pub mod encoding;
pub mod gallery;
pub mod hue;
pub mod imaging;
pub mod messages;
pub mod metadata;
pub mod platform;
pub mod renderer;
pub mod sorting;
pub mod text;
pub mod thumbnail;
pub mod ui;
