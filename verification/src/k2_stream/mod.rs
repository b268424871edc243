//! The stream framework: processors that own ports, parameters and states,
//! and the chains that connect them.
pub mod errors;
pub mod memory;
pub mod states;
pub mod parameters;
pub mod connections;
pub mod processors;
pub mod modes;
pub mod library;
pub mod log;
pub mod stream_controller;
