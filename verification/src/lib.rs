//! A bridge from machine telemetry to an MQTT broker, in a schema that a
//! home-automation hub discovers by itself.
//!
//! The crate holds the protocol adapter: the registry of announced entities,
//! the topics and payloads that go on the wire, and the decisions of the
//! connection supervisor and of the scheduler. Sampling, the broker
//! connection and the process are the caller's: every function here takes
//! and returns plain values.

pub mod app;
pub mod config;
pub mod discovery;
pub mod error;
pub mod home_assistant;
pub mod json;
pub mod lm_sensors_impl;
pub mod mqtt;
pub mod number;
pub mod nvidia_gpu;
pub mod password;
pub mod restart;
pub mod stats;
pub mod system_sensors;
pub mod text;
pub mod utils;
