//! Focus-aware nebula wallpaper: the verified core.
//!
//! The library holds the decisions of the program: the focus state machine,
//! the integer parts of the focus metrics, the input-event buffer, wallpaper
//! backend selection, the parsing of `hyprctl monitors -j` output, the
//! transition schedule and the integer bookkeeping of image generation.
pub mod config;
pub mod daemon;
pub mod focus;
pub mod nebula;
pub mod resolution;
pub mod text;
pub mod wallpaper;

