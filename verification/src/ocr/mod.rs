pub mod health;
pub mod languages;
pub mod recognize;
