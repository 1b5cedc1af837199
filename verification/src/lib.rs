//! Verified core of the City Tiles point-of-sale back end.
pub mod text;
pub mod config;
pub mod auth;
pub mod error;
pub mod clock;
pub mod repositories;
pub mod services;
pub mod commands;
pub mod database;
