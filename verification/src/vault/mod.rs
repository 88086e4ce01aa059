pub mod daily_note;
pub mod date_format;
pub mod obsidian;
pub mod resolver;
pub mod template;
