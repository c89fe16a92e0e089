pub mod app;
pub mod combat;
pub mod ipc;
pub mod laws;
pub mod model;
pub mod player;
pub mod plugin;
pub mod progression;
pub mod quests;
pub mod text;
pub mod ui;
