//! Tiling window-manager core: dwindle and master layouts, the window
//! manager's bookkeeping, configuration parsing and keybinding dispatch.
//! Everything here is plain data and verified logic; the Win32 side lives
//! in the application crate.

pub mod types;
pub mod dwindle;
pub mod master;
pub mod desktop;
pub mod monitors;
pub mod window_manager;
pub mod text;
pub mod config;
pub mod keybinds;
pub mod events;
pub mod animation;
pub mod placement;
