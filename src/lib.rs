pub mod pattern;
pub mod models_raw;
pub mod models;
pub mod state_machine;
pub mod delivery;
pub mod utils;
pub mod riddles;
pub mod commands;
pub mod admin_commands;
