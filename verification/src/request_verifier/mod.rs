pub mod activities;
pub mod cookies;
pub mod group_members;
pub mod groups;
pub mod users;
