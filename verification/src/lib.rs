//! Verified logic behind the Isekai companion for Sky: process detection,
//! Discord rich presence, and release notes.

pub mod text;
pub mod process;
pub mod discord;
pub mod rpc;
pub mod presence;
pub mod planner;
pub mod release;
