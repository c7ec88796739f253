//! Window arrangement and input mirroring logic for the Mirror Windows control panel.
pub mod game_input_dispatcher;
pub mod input_capture;
pub mod input_dispatcher;
pub mod layout_engine;
pub mod models;
pub mod profile_store;
pub mod permissions;
pub mod platform;
pub mod sorting;
pub mod state;
pub mod sync_session;
pub mod text;
pub mod window_registry;
