//! The logic of a terminal emulator with a GPU renderer: what its command line means, what has to
//! be redrawn, where glyphs live in the texture atlas, and how it talks to the clipboard, the
//! child process and the configuration.

pub mod terminal;
pub mod text;
pub mod cli;
pub mod clipboard;
pub mod config;
pub mod crash;
pub mod damage;
pub mod ipc;
pub mod logging;
pub mod platform;
pub mod renderer;
pub mod toml_value;
pub mod tty;
pub mod wgsl;
pub mod wide;
