//! Verified core of the GuepardOS welcome application.

pub mod text;
pub mod first_steps;
pub mod package_installer;
pub mod install;
pub mod quick_actions;
pub mod system_status;
pub mod presentation;
