pub mod formatter;
pub mod image;
pub mod service;
