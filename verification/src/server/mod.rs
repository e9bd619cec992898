pub mod state;
pub mod registry;
pub mod locks;
pub mod results;
pub mod execution;
pub mod artifacts;
pub mod auth;
pub mod clients;
pub mod util;
pub mod config;
pub mod public;
pub mod routing;
pub mod controllers;
pub mod heartbeat;
pub mod sequence;
pub mod laws;
pub mod archive;
