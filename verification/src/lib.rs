//! Verified core of a 2D discrete-element particle simulator: the simulation
//! settings, the initial particle layouts and their bond tables, the particle
//! state and its file format, the compute dispatch sizes, and the input
//! controller that turns window events into simulation actions.
#![allow(non_camel_case_types)]

pub mod settings;
pub mod setup;
pub mod bonds;
pub mod state;
pub mod state_file;
pub mod client;
pub mod compute;
pub mod texture;
