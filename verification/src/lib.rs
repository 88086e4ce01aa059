//! Clip text and images into an Obsidian daily note: formatting of entries,
//! Obsidian configuration reading, daily-note paths and templates, OCR
//! language bookkeeping and the clip/annotation decisions.
pub mod text;
pub mod compose;
pub mod clipboard;
pub mod annotation;
pub mod config;
pub mod clip;
pub mod json;
pub mod date;
pub mod path;
pub mod ocr;
pub mod platform;
pub mod toast;
pub mod vault;
