//! Core of a small wallpaper-picker utility.
//!
//! The library holds the verified logic of the picker: loading settings
//! from the text of a configuration document, turning a command template
//! and an image path into the argument vector of the wallpaper command,
//! judging that command's exit status, and selecting image files out of a
//! directory listing. The surrounding program supplies what a library
//! cannot do itself: reading files, listing folders, spawning the
//! command, and the GUI loop.

pub mod settings;
pub mod text;
pub mod wallpaper_engine;
pub mod walpsel_app;

pub use settings::Settings;
pub use settings::SettingsError;
pub use wallpaper_engine::WallpaperEngine;
pub use wallpaper_engine::WallpaperError;
pub use walpsel_app::WalpselApp;
