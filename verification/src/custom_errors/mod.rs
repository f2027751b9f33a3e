pub mod activities;
pub mod app;
pub mod auth;
pub mod groups;
