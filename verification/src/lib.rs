//! The logic of a desktop staging shelf: a panel that slides in from the right
//! screen edge to hold files, links and text for a while. This crate decides when
//! the shelf opens and closes and where its window goes, reads the persisted open
//! mode, classifies dropped paths, names thumbnails, and converts clipboard text
//! to and from the UTF-16 buffers the system takes.
pub mod text;
pub mod settings;
pub mod path;
pub mod assets;
pub mod geometry;
pub mod shelf;
pub mod clipboard;
pub mod commands;

pub use assets::classify_path;
pub use settings::mode_to_u8;
