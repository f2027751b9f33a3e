pub mod activities_controller;
pub mod auth_controller;
pub mod group_members_controller;
pub mod groups_controller;
