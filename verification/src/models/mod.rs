pub mod activities;
pub mod auth;
pub mod group_members;
pub mod groups;
