pub mod api;
pub mod artifacts;
pub mod ws;
pub mod events;
