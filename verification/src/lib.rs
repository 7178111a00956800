//! The logic of a keyboard driven viewer for photos and videos.
pub mod annotation;
pub mod config;
pub mod fileops;
pub mod folder;
pub mod keymap;
pub mod loader;
pub mod log;
pub mod natural;
pub mod paths;
pub mod number;
pub mod player;
pub mod text;
pub mod viewer;
pub mod window;
