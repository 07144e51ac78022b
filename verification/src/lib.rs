//! Verified core of a Minecraft plugin-debugging control server.
use vstd::prelude::*;

pub mod auth;
pub mod b64;
pub mod cli;
pub mod config;
pub mod credentials;
pub mod mcserver;
pub mod paths;
pub mod rcon;
pub mod runtime;
pub mod server;
pub mod sorting;
pub mod text;

verus! {

} // verus!
