//! schrottbar's logic: the compositor state and the window and workspace
//! labels, the bar's layout and redraw scheduling, the system tray's
//! registry and icons, and what the items read from system tools and web
//! services.
pub mod text;
pub mod num;
pub mod sort;
pub mod types;
pub mod error;
pub mod config;
pub mod niri_state;
pub mod window_icons;
pub mod window_title;
pub mod columns;
pub mod renderer;
pub mod layout;
pub mod outputs;
pub mod scheduler;
pub mod tray;
pub mod network;
pub mod audio;
pub mod system;
pub mod updates;
pub mod weather;
pub mod paymo;
pub mod items;
