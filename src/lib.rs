//! Pixel-region alert detection for a monitored application window, the
//! edge-triggered reminder state machine, a bounded broadcast event bus and
//! the decision logic of the notification sinks.

pub mod frame;
pub mod image_checker;
pub mod region;
pub mod event;
pub mod bus;
pub mod reminder;
pub mod config;
pub mod wire;
pub mod gateway;
pub mod sinks;
pub mod monitor;
pub mod clients;
