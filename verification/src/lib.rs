//! Playback planning, source caching and resolution policy of a music player,
//! plus the bookkeeping behind its desktop window materials.

pub mod text;
pub mod types;
pub mod manifest;
pub mod planner;
pub mod source_resolver;
pub mod resolution;
pub mod source_cache;
pub mod hwnd_map;
pub mod webview_memory;
pub mod minimize_guard;
pub mod host_backdrop;
pub mod window_effects;
