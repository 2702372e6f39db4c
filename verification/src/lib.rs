//! Frost: the verified core of a terminal dashboard for local dev services.
pub mod color;
pub mod config;
pub mod input;
pub mod keyed;
pub mod order;
pub mod palette;
pub mod pane;
pub mod paths;
pub mod search;
pub mod selection;
pub mod sidebar;
pub mod text;
pub mod theme_dialog;
pub mod flatten;
pub mod theme;
pub mod process;
pub mod listener;
pub mod app;
pub mod layout;
pub mod theme_registry;
pub mod theme_store;
pub mod state;
pub mod system_theme;
