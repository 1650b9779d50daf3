pub mod api;
pub mod app;
pub mod auth;
pub mod config;
pub mod db;
pub mod dns;
pub mod email;
pub mod json;
pub mod send;
pub mod services;
pub mod text;
pub mod time;
