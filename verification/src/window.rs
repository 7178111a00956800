//! What the window decides: operations, folder changes, actions and controls.
pub mod action;
pub mod animation;
pub mod bindings;
pub mod command;
pub mod controls;
pub mod error;
pub mod help;
pub mod menu;
pub mod monitor;
pub mod open;
pub mod operation;
pub mod overlay;
pub mod readout;
pub mod workspace;
