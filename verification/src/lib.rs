pub mod audio;
pub mod capture;
pub mod clipboard;
pub mod config;
pub mod display;
pub mod egfx;
pub mod input;
pub mod server;
pub mod settings;
pub mod text;
