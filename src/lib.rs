pub mod auth;
pub mod cache;
pub mod challenge;
pub mod config;
pub mod error;
pub mod registry;
pub mod text;
pub mod upstream;
