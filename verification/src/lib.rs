//! Decision logic of a space-heater controller.
//!
//! The controller polls a metrics exporter, a liveness probe, a lock-status
//! probe and a smart plug, and switches the plug so that it matches a small
//! boolean policy. This crate holds everything that is decided or computed;
//! the network calls themselves are made by the program around it, which
//! hands their results in as plain values.

pub mod api;
pub mod config;
pub mod heater;
pub mod heatman;
pub mod metrics;
pub mod pc;
pub mod reading;
pub mod trace;
