pub mod actions;
pub mod app;
pub mod desktop;
pub mod laws;
pub mod memory;
pub mod messages;
pub mod model;
pub mod outside;
pub mod processes;
pub mod procfs;
pub mod snapshots;
pub mod sums;
pub mod tables;
pub mod text;
pub mod tracker;
