//! A terminal clock: large-glyph time display, a menu, a settings page and an
//! About page, with settings kept in a small text configuration file.
//!
//! The library holds the logic of the program with its proofs: how key presses
//! move between pages and change settings (`app`), how the configuration file
//! is read and written (`config`), the glyphs and layout of every page (`font`,
//! `ui`), the time text (`clock`) and the colour themes (`theme`). Terminal
//! input and output, the file system and the environment stay with the caller.
pub mod text;
pub mod theme;
pub mod app;
pub mod config;
pub mod font;
pub mod clock;
pub mod ui;
